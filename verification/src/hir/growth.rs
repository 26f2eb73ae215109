//! What lowering keeps of the names it works on: they only grow.
//!
//! Ids handed out once stay what they are, no recorded error is lost, and outside recovery none is
//! recorded at all.

use crate::arena::slice_of;
use crate::ast;
use crate::ast::{no_span, GenericBound, Impl, Interface, Span, Spanned};
use crate::hir::arrays::Arrays;
use crate::hir::declarations::Items;
use crate::hir::error::{HirError, HirErrorKind};
use crate::hir::inference_laws::{keeps, lemma_intern_keeps, lemma_keeps_same, lemma_keeps_trans};
use crate::hir::scope::{
    resolve_primitive_type_spec, FunctionSignature, GenericEnv, InterfaceMethodSignature,
    InterfaceSignature, Names,
};
use crate::hir::structs::{batch_position, mark, StructDecl, Visit};
use crate::hir::symbols::SymbolId;
use crate::hir::table::{lemma_member_key_injective, lookup, member_key, nested_key};
use crate::hir::tree::{
    ConstTree, Enum, EnumVariant, FunctionId, FunctionKind, Intrinsic, Method, Struct, StructField,
};
use crate::hir::type_resolver::{
    enum_repr, impl_substitution, intrinsic_method_spec, is_generic_impl_spec, param_env,
    receiver_param_type, substitution, ResolveCtx, MAX_DEPTH,
};
use crate::hir::types::{EnumId, EnumRepr, StructId, Type, TypeKind};
use vstd::prelude::*;

verus! {

/// What later work may rely on: the ids that were handed out, and the errors that were recorded.
pub ghost struct Ledger<'hir> {
    pub symbols: Seq<Seq<char>>,
    pub signatures: Seq<FunctionSignature<'hir>>,
    pub structs: Seq<Struct<'hir>>,
    pub enums: Seq<Enum<'hir>>,
    pub arrays: Arrays,
    pub constants: Seq<ConstTree<'hir>>,
    pub implemented: Seq<(Type, SymbolId)>,
    pub templates: Map<u32, &'hir ast::Function<'hir>>,
    pub errors: Seq<HirError<Seq<char>>>,
    pub recover: bool,
}

impl<'hir> Names<'hir> {
    pub open spec fn ledger(self) -> Ledger<'hir> {
        Ledger {
            symbols: self.symbols,
            signatures: self.signatures,
            structs: self.structs,
            enums: self.enums,
            arrays: self.arrays,
            constants: self.constants,
            implemented: self.interface_impls,
            templates: self.generic_fns,
            errors: self.errors,
            recover: self.recover,
        }
    }
}

/// The first list is the start of the second.
pub open spec fn starts<T>(first: Seq<T>, second: Seq<T>) -> bool {
    &&& first.len() <= second.len()
    &&& forall|i: int| 0 <= i < first.len() ==> #[trigger] second[i] == first[i]
}

/// The same struct, with its fields filled in or not.
pub open spec fn same_struct<'hir>(first: Struct<'hir>, second: Struct<'hir>) -> bool {
    &&& first.id == second.id
    &&& first.name == second.name
    &&& first.decl_span == second.decl_span
    &&& first.repr == second.repr
    &&& first.generics == second.generics
}

/// The same enum, with its variants filled in or not.
pub open spec fn same_enum<'hir>(first: Enum<'hir>, second: Enum<'hir>) -> bool {
    &&& first.id == second.id
    &&& first.name == second.name
    &&& first.decl_span == second.decl_span
    &&& first.repr == second.repr
    &&& first.generics == second.generics
}

/// Names only grew: symbols, functions, structs, enums and arrays keep their ids, generic functions
/// stay templates, and errors stay recorded. Without recovery none is recorded. A type without
/// inference variables stays without. No constant comes in.
#[verifier::opaque]
pub open spec fn extends<'hir>(before: Ledger<'hir>, after: Ledger<'hir>) -> bool {
    &&& starts(before.symbols, after.symbols)
    &&& starts(before.signatures, after.signatures)
    &&& starts(before.implemented, after.implemented)
    &&& forall|id: u32|
        before.templates.contains_key(id) ==> #[trigger] after.templates.contains_key(id)
    &&& starts(before.errors, after.errors)
    &&& after.recover == before.recover
    &&& !before.recover ==> after.errors == before.errors
    &&& before.structs.len() <= after.structs.len()
    &&& forall|i: int|
        0 <= i < before.structs.len() ==> same_struct(
            before.structs[i],
            #[trigger] after.structs[i],
        )
    &&& before.enums.len() <= after.enums.len()
    &&& forall|i: int|
        0 <= i < before.enums.len() ==> same_enum(before.enums[i], #[trigger] after.enums[i])
    &&& before.arrays.types.len() <= after.arrays.types.len()
    &&& forall|i: int|
        0 <= i < before.arrays.types.len() ==> (#[trigger] after.arrays.types[i]).len
            == before.arrays.types[i].len
    &&& keeps(before.arrays, after.arrays)
    &&& after.constants == before.constants
}

/// Names only grew, and constants may have come in.
#[verifier::opaque]
pub open spec fn widens<'hir>(before: Ledger<'hir>, after: Ledger<'hir>) -> bool {
    extends(Ledger { constants: after.constants, ..before }, after)
}

pub(crate) broadcast proof fn lemma_extends_widens<'hir>(a: Ledger<'hir>, b: Ledger<'hir>)
    requires
        #[trigger] extends(a, b),
    ensures
        widens(a, b),
{
    reveal(widens);
    reveal(extends);
    assert(Ledger { constants: b.constants, ..a } == a);
}

pub(crate) broadcast proof fn lemma_widens_trans<'hir>(a: Ledger<'hir>, b: Ledger<'hir>, c: Ledger<'hir>)
    requires
        #[trigger] widens(a, b),
        #[trigger] widens(b, c),
    ensures
        widens(a, c),
{
    reveal(widens);
    let first = Ledger { constants: c.constants, ..a };
    let second = Ledger { constants: c.constants, ..b };
    assert(extends(first, second)) by {
        reveal(extends);
        assert(extends(Ledger { constants: b.constants, ..a }, b));
    }
    lemma_extends_trans(first, second, c);
}

pub(crate) broadcast proof fn lemma_extends_same<'hir>(ledger: Ledger<'hir>)
    ensures
        #[trigger] extends(ledger, ledger),
{
    reveal(extends);
    lemma_keeps_same(ledger.arrays);
}

pub(crate) broadcast proof fn lemma_extends_trans<'hir>(a: Ledger<'hir>, b: Ledger<'hir>, c: Ledger<'hir>)
    requires
        #[trigger] extends(a, b),
        #[trigger] extends(b, c),
    ensures
        extends(a, c),
{
    reveal(extends);
    assert forall|i: int| 0 <= i < a.structs.len() implies same_struct(
        a.structs[i],
        #[trigger] c.structs[i],
    ) by {
        assert(same_struct(a.structs[i], b.structs[i]));
    }
    assert forall|i: int| 0 <= i < a.enums.len() implies same_enum(
        a.enums[i],
        #[trigger] c.enums[i],
    ) by {
        assert(same_enum(a.enums[i], b.enums[i]));
    }
    lemma_keeps_trans(a.arrays, b.arrays, c.arrays);
    assert forall|i: int| 0 <= i < a.arrays.types.len() implies (#[trigger] c.arrays.types[i]).len
        == a.arrays.types[i].len by {
        assert(b.arrays.types[i].len == a.arrays.types[i].len);
    }
    assert forall|i: int| 0 <= i < a.symbols.len() implies #[trigger] c.symbols[i]
        == a.symbols[i] by {
        assert(b.symbols[i] == a.symbols[i]);
    }
    assert forall|i: int| 0 <= i < a.signatures.len() implies #[trigger] c.signatures[i]
        == a.signatures[i] by {
        assert(b.signatures[i] == a.signatures[i]);
    }
    assert forall|i: int| 0 <= i < a.implemented.len() implies #[trigger] c.implemented[i]
        == a.implemented[i] by {
        assert(b.implemented[i] == a.implemented[i]);
    }
    assert forall|id: u32| a.templates.contains_key(id) implies #[trigger] c.templates.contains_key(
        id,
    ) by {
        assert(b.templates.contains_key(id));
    }
    assert forall|i: int| 0 <= i < a.errors.len() implies #[trigger] c.errors[i]
        == a.errors[i] by {
        assert(b.errors[i] == a.errors[i]);
    }
}

/// A type without inference variables stays without while names grow, and no constant comes in.
pub proof fn lemma_extends_keeps<'hir>(a: Ledger<'hir>, b: Ledger<'hir>)
    requires
        extends(a, b),
    ensures
        keeps(a.arrays, b.arrays),
        b.constants == a.constants,
{
    reveal(extends);
}

/// What a name, an id or a member stands for: what later modules look up.
pub ghost struct Catalog<'hir> {
    pub symbols: Seq<Seq<char>>,
    pub signatures: Seq<FunctionSignature<'hir>>,
    pub structs: Seq<Struct<'hir>>,
    pub enums: Seq<Enum<'hir>>,
    pub struct_map: Map<usize, StructId>,
    pub enum_map: Map<usize, EnumId>,
    pub functions: Map<usize, FunctionId>,
    pub methods: Map<u128, FunctionId>,
    pub interfaces: Map<usize, InterfaceSignature<'hir>>,
    pub templates: Map<u32, &'hir ast::Function<'hir>>,
    pub environments: Map<u32, GenericEnv<'hir>>,
    pub slices: Seq<Type>,
}

impl<'hir> Names<'hir> {
    pub open spec fn catalog(self) -> Catalog<'hir> {
        Catalog {
            symbols: self.symbols,
            signatures: self.signatures,
            structs: self.structs,
            enums: self.enums,
            struct_map: self.struct_map,
            enum_map: self.enum_map,
            functions: self.functions,
            methods: self.methods,
            interfaces: self.interfaces,
            templates: self.generic_fns,
            environments: self.generic_fn_envs,
            slices: self.specialized_slices,
        }
    }
}

impl<'hir> Catalog<'hir> {
    /// Whether every id still fits its number.
    pub open spec fn fits(self) -> bool {
        &&& self.structs.len() <= u32::MAX
        &&& self.enums.len() <= u32::MAX
        &&& self.signatures.len() <= u32::MAX
    }

    /// Whether a type has no definition here yet, so that it can have no methods either.
    pub open spec fn lacks(self, receiver: Type) -> bool {
        match receiver.kind() {
            TypeKind::Struct(id) => id.0 >= self.structs.len(),
            TypeKind::Enum(id) => id.0 >= self.enums.len(),
            TypeKind::Slice { .. } => !self.slices.contains(receiver),
            _ => false,
        }
    }

    /// Whether methods belong to types that are there.
    pub open spec fn owns_methods(self) -> bool {
        forall|receiver: Type, name: SymbolId|
            self.methods.contains_key(#[trigger] member_key(receiver, name)) ==> !self.lacks(
                receiver,
            )
    }

    /// Whether methods belong to types that are there, names stand for such types, and those and
    /// interfaces have names.
    pub open spec fn placed(self) -> bool {
        &&& self.owns_methods()
        &&& forall|name: usize| #[trigger]
            self.struct_map.contains_key(name) ==> self.struct_map[name].0 < self.structs.len()
        &&& forall|name: usize| #[trigger]
            self.enum_map.contains_key(name) ==> self.enum_map[name].0 < self.enums.len()
        &&& forall|i: int|
            0 <= i < self.structs.len() ==> (#[trigger] self.structs[i]).name.0 < self.symbols.len()
        &&& forall|i: int|
            0 <= i < self.enums.len() ==> (#[trigger] self.enums[i]).name.0 < self.symbols.len()
        &&& forall|name: usize| #[trigger]
            self.interfaces.contains_key(name) ==> name < self.symbols.len()
    }

    /// Whether everything has its place, and templates have signatures.
    pub open spec fn sound(self) -> bool {
        &&& self.placed()
        &&& forall|id: u32| #[trigger]
            self.templates.contains_key(id) ==> id < self.signatures.len()
    }

    /// Whether the structs and enums have their positions as ids.
    pub open spec fn numbered(self) -> bool {
        &&& forall|i: int| 0 <= i < self.structs.len() ==> (#[trigger] self.structs[i]).id.0 == i
        &&& forall|i: int| 0 <= i < self.enums.len() ==> (#[trigger] self.enums[i]).id.0 == i
    }

    /// Whether a full name now stands for a static method of an instance made since `base`.
    pub open spec fn remade(self, base: Catalog<'hir>, name: usize) -> bool {
        let id = self.functions[name].0;
        &&& base.signatures.len() <= id < self.signatures.len()
        &&& self.signatures[id as int].name.0 == name
        &&& self.environments.contains_key(id) || self.signatures[id as int].kind
            == FunctionKind::Intrinsic(Intrinsic::Len)
    }
}

/// Every entry of the first table stands in the second.
pub open spec fn within<K, V>(first: Map<K, V>, second: Map<K, V>) -> bool {
    forall|key: K|
        first.contains_key(key) ==> #[trigger] second.contains_key(key) && second[key] == first[key]
}

/// All that was there stays as it was: symbols, structs with their fields, enums with their
/// variants, signatures, and what names and members stand for. New structs and enums have their
/// positions as ids.
pub open spec fn preserved<'hir>(base: Catalog<'hir>, now: Catalog<'hir>) -> bool {
    &&& starts(base.symbols, now.symbols)
    &&& base.symbols.no_duplicates() ==> now.symbols.no_duplicates()
    &&& starts(base.signatures, now.signatures)
    &&& starts(base.structs, now.structs)
    &&& starts(base.enums, now.enums)
    &&& forall|i: int|
        base.structs.len() <= i < now.structs.len() ==> (#[trigger] now.structs[i]).id.0 == i
    &&& forall|i: int|
        base.enums.len() <= i < now.enums.len() ==> (#[trigger] now.enums[i]).id.0 == i
    &&& within(base.struct_map, now.struct_map)
    &&& within(base.enum_map, now.enum_map)
    &&& forall|name: usize|
        base.enum_map.contains_key(name) && !base.struct_map.contains_key(name)
            ==> !#[trigger] now.struct_map.contains_key(name)
    &&& forall|name: usize|
        base.functions.contains_key(name) ==> #[trigger] now.functions.contains_key(name) && (
        now.functions[name] == base.functions[name] || now.remade(base, name))
    &&& within(base.methods, now.methods)
    &&& within(base.interfaces, now.interfaces)
    &&& forall|slice: Type| base.slices.contains(slice) ==> #[trigger] now.slices.contains(slice)
}

/// `now` came from `base` by work that preserves it, as long as ids fit their numbers.
#[verifier::opaque]
pub open spec fn kept<'hir>(base: Catalog<'hir>, now: Catalog<'hir>) -> bool {
    base.owns_methods() && (now.fits() ==> preserved(base, now) && now.sound())
}

/// Types that are there stay there.
pub open spec fn found<'hir>(before: Catalog<'hir>, after: Catalog<'hir>) -> bool {
    forall|typ: Type| #[trigger] after.lacks(typ) ==> before.lacks(typ)
}

/// A step keeps whatever was kept before it.
#[verifier::opaque]
pub open spec fn carries<'hir>(before: Catalog<'hir>, after: Catalog<'hir>) -> bool {
    &&& found(before, after)
    &&& forall|base: Catalog<'hir>| #[trigger] kept(base, before) ==> kept(base, after)
}

/// A step that gives `receiver` methods keeps what was there before that type.
pub open spec fn carries_for<'hir>(
    receiver: Type,
    before: Catalog<'hir>,
    after: Catalog<'hir>,
) -> bool {
    &&& found(before, after)
    &&& forall|base: Catalog<'hir>| #[trigger]
        kept(base, before) && base.lacks(receiver) && !before.lacks(receiver) ==> kept(base, after)
}

/// A step that gives a type that is there methods it has not keeps what was there.
pub open spec fn carries_on<'hir>(
    receiver: Type,
    before: Catalog<'hir>,
    after: Catalog<'hir>,
) -> bool {
    &&& found(before, after)
    &&& forall|base: Catalog<'hir>| #[trigger]
        kept(base, before) && !before.lacks(receiver) ==> kept(base, after)
}

/// Whether a batch holds only structs that `base` lacks.
pub open spec fn batch_after<'hir>(base: Catalog<'hir>, batch: Seq<StructDecl<'hir>>) -> bool {
    forall|i: int| 0 <= i < batch.len() ==> (#[trigger] batch[i]).0.0 >= base.structs.len()
}

/// A step that fills in the structs of a batch keeps what was there before them.
pub open spec fn carries_batch<'hir>(
    batch: Seq<StructDecl<'hir>>,
    before: Catalog<'hir>,
    after: Catalog<'hir>,
) -> bool {
    &&& found(before, after)
    &&& forall|base: Catalog<'hir>| #[trigger]
        kept(base, before) && batch_after(base, batch) ==> kept(base, after)
}

/// What a step may do to a catalog that came from `base`: add to it, and fill in structs and enums
/// that `base` lacks.
spec fn steps<'hir>(base: Catalog<'hir>, now: Catalog<'hir>, after: Catalog<'hir>) -> bool {
    &&& starts(now.symbols, after.symbols)
    &&& now.symbols.no_duplicates() ==> after.symbols.no_duplicates()
    &&& starts(now.signatures, after.signatures)
    &&& now.structs.len() <= after.structs.len()
    &&& forall|i: int|
        0 <= i < base.structs.len() ==> #[trigger] after.structs[i] == now.structs[i]
    &&& forall|i: int|
        base.structs.len() <= i < after.structs.len() ==> (#[trigger] after.structs[i]).id.0 == i
    &&& now.enums.len() <= after.enums.len()
    &&& forall|i: int| 0 <= i < base.enums.len() ==> #[trigger] after.enums[i] == now.enums[i]
    &&& forall|i: int|
        base.enums.len() <= i < after.enums.len() ==> (#[trigger] after.enums[i]).id.0 == i
    &&& within(now.struct_map, after.struct_map)
    &&& within(now.enum_map, after.enum_map)
    &&& forall|name: usize|
        now.enum_map.contains_key(name) && !now.struct_map.contains_key(name)
            ==> !#[trigger] after.struct_map.contains_key(name)
    &&& forall|name: usize|
        base.functions.contains_key(name) && now.functions.contains_key(name)
            ==> #[trigger] after.functions.contains_key(name) && (after.functions[name]
            == now.functions[name] || after.remade(base, name))
    &&& forall|key: u128|
        base.methods.contains_key(key) && now.methods.contains_key(key)
            ==> #[trigger] after.methods.contains_key(key) && after.methods[key] == now.methods[key]
    &&& forall|name: usize|
        base.interfaces.contains_key(name) && now.interfaces.contains_key(name)
            ==> #[trigger] after.interfaces.contains_key(name) && after.interfaces[name]
            == now.interfaces[name]
    &&& forall|id: u32|
        now.environments.contains_key(id) ==> #[trigger] after.environments.contains_key(id)
    &&& forall|slice: Type| now.slices.contains(slice) ==> #[trigger] after.slices.contains(slice)
    &&& forall|id: u32|
        (#[trigger] after.templates.contains_key(id)) ==> now.templates.contains_key(id) || id
            < after.signatures.len()
    &&& now.placed() ==> after.placed()
}

/// A method of a type that is there leaves methods owned.
proof fn lemma_owned<'hir>(
    now: Catalog<'hir>,
    after: Catalog<'hir>,
    receiver: Type,
    name: SymbolId,
    id: FunctionId,
)
    requires
        now.owns_methods(),
        found(now, after),
        after.methods == now.methods.insert(member_key(receiver, name), id),
        !after.lacks(receiver),
    ensures
        after.owns_methods(),
{
    assert forall|typ: Type, member: SymbolId|
        after.methods.contains_key(#[trigger] member_key(typ, member)) implies !after.lacks(typ) by {
        lemma_member_key_injective(typ, member, receiver, name);
    }
}

proof fn lemma_step<'hir>(base: Catalog<'hir>, now: Catalog<'hir>, after: Catalog<'hir>)
    requires
        kept(base, now),
        after.fits() && preserved(base, now) && now.sound() ==> steps(base, now, after),
        after.fits() ==> now.fits(),
    ensures
        kept(base, after),
{
    reveal(kept);
    if after.fits() {
        assert forall|i: int| 0 <= i < base.symbols.len() implies #[trigger] after.symbols[i]
            == base.symbols[i] by {
            assert(now.symbols[i] == base.symbols[i]);
        }
        assert forall|i: int| 0 <= i < base.signatures.len() implies #[trigger] after.signatures[i]
            == base.signatures[i] by {
            assert(now.signatures[i] == base.signatures[i]);
        }
        assert forall|i: int| 0 <= i < base.structs.len() implies #[trigger] after.structs[i]
            == base.structs[i] by {
            assert(now.structs[i] == base.structs[i]);
        }
        assert forall|i: int| 0 <= i < base.enums.len() implies #[trigger] after.enums[i]
            == base.enums[i] by {
            assert(now.enums[i] == base.enums[i]);
        }
        assert forall|name: usize| base.struct_map.contains_key(name) implies (
        #[trigger] after.struct_map.contains_key(name) && after.struct_map[name]
            == base.struct_map[name]) by {
            assert(now.struct_map.contains_key(name));
        }
        assert forall|name: usize| base.enum_map.contains_key(name) implies (
        #[trigger] after.enum_map.contains_key(name) && after.enum_map[name]
            == base.enum_map[name]) by {
            assert(now.enum_map.contains_key(name));
        }
        assert forall|name: usize|
            base.enum_map.contains_key(name) && !base.struct_map.contains_key(
                name,
            ) implies !#[trigger] after.struct_map.contains_key(name) by {
            assert(now.enum_map.contains_key(name));
            assert(!now.struct_map.contains_key(name));
        }
        assert forall|name: usize| base.functions.contains_key(name) implies (
        #[trigger] after.functions.contains_key(name) && (after.functions[name]
            == base.functions[name] || after.remade(base, name))) by {
            assert(now.functions.contains_key(name));
            assert(after.functions.contains_key(name));
            if after.functions[name] != now.functions[name] {
                assert(after.remade(base, name));
            } else if now.functions[name] != base.functions[name] {
                assert(now.remade(base, name));
                let id = now.functions[name].0;
                assert(after.signatures[id as int] == now.signatures[id as int]);
                if now.environments.contains_key(id) {
                    assert(after.environments.contains_key(id));
                }
                assert(after.remade(base, name));
            }
        }
        assert forall|key: u128| base.methods.contains_key(key) implies (
        #[trigger] after.methods.contains_key(key) && after.methods[key] == base.methods[key]) by {
            assert(now.methods.contains_key(key));
        }
        assert forall|id: u32| #[trigger] after.templates.contains_key(id) implies id
            < after.signatures.len() by {
            if now.templates.contains_key(id) {
                assert(id < now.signatures.len());
            }
        }
        assert forall|name: usize| base.interfaces.contains_key(name) implies (
        #[trigger] after.interfaces.contains_key(name) && after.interfaces[name]
            == base.interfaces[name]) by {
            assert(now.interfaces.contains_key(name));
        }
        assert forall|slice: Type|
            base.slices.contains(slice) implies #[trigger] after.slices.contains(slice) by {
            assert(now.slices.contains(slice));
        }
    }
}

/// A name that is free stays outside what came before.
proof fn lemma_kept_free<'hir>(base: Catalog<'hir>, now: Catalog<'hir>)
    requires
        kept(base, now),
        now.fits(),
    ensures
        forall|name: usize|
            base.functions.contains_key(name) ==> #[trigger] now.functions.contains_key(name),
        forall|key: u128|
            base.methods.contains_key(key) ==> #[trigger] now.methods.contains_key(key),
        forall|name: usize|
            base.interfaces.contains_key(name) ==> #[trigger] now.interfaces.contains_key(name),
        base.structs.len() <= now.structs.len(),
        base.enums.len() <= now.enums.len(),
        now.sound(),
{
    reveal(kept);
}

/// Nothing is claimed where ids no longer fit their numbers.
proof fn lemma_kept_large<'hir>(base: Catalog<'hir>, now: Catalog<'hir>, after: Catalog<'hir>)
    requires
        kept(base, now),
        !after.fits(),
    ensures
        kept(base, after),
{
    reveal(kept);
}

proof fn lemma_fits<'hir>(before: Names<'hir>, after: Names<'hir>)
    requires
        extends(before.ledger(), after.ledger()),
        after.catalog().fits(),
    ensures
        before.catalog().fits(),
{
    reveal(extends);
}

pub(crate) broadcast proof fn lemma_carries_same<'hir>(catalog: Catalog<'hir>)
    ensures
        #[trigger] carries(catalog, catalog),
{
    reveal(carries);
}

pub(crate) broadcast proof fn lemma_carries_trans<'hir>(
    a: Catalog<'hir>,
    b: Catalog<'hir>,
    c: Catalog<'hir>,
)
    requires
        #[trigger] carries(a, b),
        #[trigger] carries(b, c),
    ensures
        carries(a, c),
{
    reveal(carries);
}

impl<'hir> Names<'hir> {
    pub(crate) broadcast proof fn lemma_insert_grows(self, name: Seq<char>)
        ensures
            extends(self.ledger(), (#[trigger] self.insert(name)).0.ledger()),
            carries(self.catalog(), self.insert(name).0.catalog()),
            self.insert(name).1.0 < self.insert(name).0.symbols.len(),
    {
        if self.symbols.contains(name) {
            assert(0 <= self.symbols.index_of(name) < self.symbols.len());
        }
        reveal(extends);
        lemma_keeps_same(self.arrays);
        reveal(carries);
        let after = self.insert(name).0;
        assert forall|base: Catalog<'hir>| #[trigger]
            kept(base, self.catalog()) implies kept(base, after.catalog()) by {
            reveal(kept);
            lemma_step(base, self.catalog(), after.catalog());
        }
    }

    pub(crate) broadcast proof fn lemma_push_signature_grows(self, signature: FunctionSignature<'hir>)
        ensures
            extends(self.ledger(), (#[trigger] self.push_signature(signature)).0.ledger()),
            carries(self.catalog(), self.push_signature(signature).0.catalog()),
    {
        reveal(extends);
        lemma_keeps_same(self.arrays);
        reveal(carries);
        let after = self.push_signature(signature).0;
        assert forall|base: Catalog<'hir>| #[trigger]
            kept(base, self.catalog()) implies kept(base, after.catalog()) by {
            reveal(kept);
            lemma_step(base, self.catalog(), after.catalog());
        }
    }

    pub(crate) broadcast proof fn lemma_declare_enum_grows(
        self,
        name: SymbolId,
        repr: EnumRepr,
        decl_span: Span,
        generics: Seq<SymbolId>,
    )
        ensures
            extends(
                self.ledger(),
                (#[trigger] self.declare_enum(name, repr, decl_span, generics)).0.ledger(),
            ),
            !self.is_nominal(name) && name.0 < self.symbols.len() ==> carries(
                self.catalog(),
                self.declare_enum(name, repr, decl_span, generics).0.catalog(),
            ),
    {
        reveal(extends);
        lemma_keeps_same(self.arrays);
        reveal(carries);
        let after = self.declare_enum(name, repr, decl_span, generics).0;
        assert forall|base: Catalog<'hir>| #[trigger]
            kept(base, self.catalog()) && !self.is_nominal(name) && name.0
                < self.symbols.len() implies kept(base, after.catalog()) by {
            reveal(kept);
            lemma_step(base, self.catalog(), after.catalog());
        }
    }

    pub(crate) broadcast proof fn lemma_set_variants_grows(self, index: int, variants: Seq<EnumVariant>)
        ensures
            extends(self.ledger(), (#[trigger] self.set_variants(index, variants)).ledger()),
            found(self.catalog(), self.set_variants(index, variants).catalog()),
            forall|base: Catalog<'hir>| #[trigger]
                kept(base, self.catalog()) && index >= base.enums.len() ==> kept(
                    base,
                    self.set_variants(index, variants).catalog(),
                ),
    {
        reveal(extends);
        lemma_keeps_same(self.arrays);
        let after = self.set_variants(index, variants);
        assert forall|base: Catalog<'hir>| #[trigger]
            kept(base, self.catalog()) && index >= base.enums.len() implies kept(
            base,
            after.catalog(),
        ) by {
            reveal(kept);
            lemma_step(base, self.catalog(), after.catalog());
        }
    }

    pub(crate) broadcast proof fn lemma_declare_struct_grows(
        self,
        name: SymbolId,
        decl_span: Span,
        repr: ast::StructRepr,
        generics: Seq<SymbolId>,
    )
        ensures
            extends(
                self.ledger(),
                (#[trigger] self.declare_struct(name, decl_span, repr, generics)).0.ledger(),
            ),
            !self.is_nominal(name) && name.0 < self.symbols.len() ==> carries(
                self.catalog(),
                self.declare_struct(name, decl_span, repr, generics).0.catalog(),
            ),
    {
        reveal(extends);
        lemma_keeps_same(self.arrays);
        reveal(carries);
        let after = self.declare_struct(name, decl_span, repr, generics).0;
        assert forall|base: Catalog<'hir>| #[trigger]
            kept(base, self.catalog()) && !self.is_nominal(name) && name.0
                < self.symbols.len() implies kept(base, after.catalog()) by {
            reveal(kept);
            lemma_step(base, self.catalog(), after.catalog());
        }
    }

    pub(crate) broadcast proof fn lemma_set_fields_grows(self, index: int, fields: Seq<StructField>)
        ensures
            extends(self.ledger(), (#[trigger] self.set_fields(index, fields)).ledger()),
            found(self.catalog(), self.set_fields(index, fields).catalog()),
            forall|base: Catalog<'hir>| #[trigger]
                kept(base, self.catalog()) && index >= base.structs.len() ==> kept(
                    base,
                    self.set_fields(index, fields).catalog(),
                ),
    {
        reveal(extends);
        lemma_keeps_same(self.arrays);
        let after = self.set_fields(index, fields);
        assert forall|base: Catalog<'hir>| #[trigger]
            kept(base, self.catalog()) && index >= base.structs.len() implies kept(
            base,
            after.catalog(),
        ) by {
            reveal(kept);
            lemma_step(base, self.catalog(), after.catalog());
        }
    }

    pub(crate) broadcast proof fn lemma_intern_array_grows(self, element: Type, len: u32)
        ensures
            extends(
                self.ledger(),
                Names { arrays: (#[trigger] self.arrays.intern(element, len)).0, ..self }.ledger(),
            ),
    {
        reveal(extends);
        lemma_intern_keeps(self.arrays, element, len);
    }

    pub(crate) broadcast proof fn lemma_template_grows(
        self,
        id: u32,
        function: &'hir ast::Function<'hir>,
    )
        ensures
            extends(
                self.ledger(),
                Names {
                    generic_fns: #[trigger] self.generic_fns.insert(id, function),
                    ..self
                }.ledger(),
            ),
    {
        reveal(extends);
        lemma_keeps_same(self.arrays);
    }

    pub(crate) broadcast proof fn lemma_poison_grows(self, error: HirError<Seq<char>>)
        ensures
            extends(self.ledger(), (#[trigger] self.poison(error)).0.ledger()),
            carries(self.catalog(), self.poison(error).0.catalog()),
    {
        reveal(extends);
        lemma_keeps_same(self.arrays);
        reveal(carries);
    }

    pub(crate) broadcast proof fn lemma_soft_grows(self, error: HirError<Seq<char>>)
        ensures
            extends(self.ledger(), (#[trigger] self.soft(error)).0.ledger()),
            carries(self.catalog(), self.soft(error).0.catalog()),
    {
        reveal(extends);
        lemma_keeps_same(self.arrays);
        reveal(carries);
    }

    pub(crate) broadcast proof fn lemma_add_impl_grows(self, typ: Type, interface: SymbolId)
        ensures
            extends(self.ledger(), (#[trigger] self.add_impl(typ, interface)).ledger()),
            carries(self.catalog(), self.add_impl(typ, interface).catalog()),
    {
        reveal(extends);
        lemma_keeps_same(self.arrays);
        reveal(carries);
    }

    /// Naming type parameters only adds symbols.
    pub(crate) proof fn lemma_insert_generics_same(
        self,
        generics: Seq<GenericBound<'hir>>,
        at: int,
        names: Seq<SymbolId>,
    )
        ensures
            ({
                let after = self.insert_generics(generics, at, names).0;
                after == (Names { symbols: after.symbols, ..self })
            }),
        decreases generics.len() - at,
    {
        if 0 <= at < generics.len() {
            let (next, symbol) = self.insert(generics[at].name@);
            next.lemma_insert_generics_same(generics, at + 1, names.push(symbol));
        }
    }

    /// The structs that a module declares come after those that were there.
    proof fn lemma_declared_after(
        self,
        base: Catalog<'hir>,
        structs: Seq<&'hir ast::Struct<'hir>>,
        at: nat,
        batch: Seq<StructDecl<'hir>>,
    )
        requires
            kept(base, self.catalog()),
            batch_after(base, batch),
            self.declare_structs(structs, at, batch).0.catalog().fits(),
        ensures
            self.declare_structs(structs, at, batch).1 matches Ok(declared) ==> batch_after(
                base,
                declared,
            ),
        decreases structs.len() - at,
    {
        broadcast use {
            Names::lemma_insert_grows, Names::lemma_soft_grows, Names::lemma_declare_struct_grows,
            Names::lemma_declare_structs_grows, lemma_extends_same, lemma_extends_trans,
        };

        reveal(carries);
        if at < structs.len() {
            let declaration = structs[at as int];
            let (names, symbol) = self.insert(declaration.name@);
            let duplicate = HirError::new(
                HirErrorKind::DuplicateStruct { name: declaration.name@ },
                declaration.span,
            );
            if names.is_nominal(symbol) {
                match names.soft(duplicate) {
                    (names, Ok(_)) => {
                        names.lemma_declared_after(base, structs, at + 1, batch);
                    },
                    _ => {},
                }
            } else if declaration.generics@.len() > 0 {
                let names = Names {
                    generic_structs: names.generic_structs.insert(symbol.0, declaration),
                    ..names
                };
                names.lemma_declared_after(base, structs, at + 1, batch);
            } else {
                let (next, id) = names.declare_struct(
                    symbol,
                    declaration.span,
                    declaration.repr,
                    seq![],
                );
                let after = next.declare_structs(structs, at + 1, batch.push((id, declaration))).0;
                lemma_fits(next, after);
                lemma_fits(names, next);
                lemma_kept_free(base, names.catalog());
                next.lemma_declared_after(base, structs, at + 1, batch.push((id, declaration)));
            }
        }
    }

    /// A function may take a name that was free before its signature was resolved.
    proof fn lemma_new_function(
        self,
        base: Catalog<'hir>,
        free: Names<'hir>,
        signature: FunctionSignature<'hir>,
        name: usize,
    )
        requires
            kept(base, free.catalog()),
            kept(base, self.catalog()),
            extends(free.ledger(), self.ledger()),
            !free.functions.contains_key(name),
        ensures
            ({
                let (names, id) = self.push_signature(signature);
                kept(base, Names { functions: names.functions.insert(name, id), ..names }.catalog())
            }),
    {
        let (names, id) = self.push_signature(signature);
        let after = Names { functions: names.functions.insert(name, id), ..names };
        if after.catalog().fits() {
            lemma_fits(free, self);
            lemma_kept_free(base, free.catalog());
            assert(!free.catalog().functions.contains_key(name));
            reveal(kept);
            lemma_step(base, self.catalog(), after.catalog());
        } else {
            lemma_kept_large(base, self.catalog(), after.catalog());
        }
    }

    /// A method may take a place that was free before its signature was resolved.
    proof fn lemma_new_method(
        self,
        base: Catalog<'hir>,
        free: Names<'hir>,
        signature: FunctionSignature<'hir>,
        receiver: Type,
        name: SymbolId,
    )
        requires
            kept(base, free.catalog()),
            kept(base, self.catalog()),
            extends(free.ledger(), self.ledger()),
            !free.methods.contains_key(member_key(receiver, name)),
            !self.catalog().lacks(receiver),
        ensures
            ({
                let (names, id) = self.push_signature(signature);
                let key = member_key(receiver, name);
                kept(base, Names { methods: names.methods.insert(key, id), ..names }.catalog())
            }),
    {
        let (names, id) = self.push_signature(signature);
        let key = member_key(receiver, name);
        let after = Names { methods: names.methods.insert(key, id), ..names };
        if after.catalog().fits() {
            lemma_fits(free, self);
            lemma_kept_free(base, free.catalog());
            assert(!free.catalog().methods.contains_key(key));
            reveal(kept);
            lemma_owned(self.catalog(), after.catalog(), receiver, name, id);
            lemma_step(base, self.catalog(), after.catalog());
        } else {
            lemma_kept_large(base, self.catalog(), after.catalog());
        }
    }

    /// The type that an `impl` block attaches to is there.
    proof fn lemma_receiver_found(
        self,
        base: Catalog<'hir>,
        implementation: ast::Impl<'hir>,
        items: Items<'hir>,
    )
        requires
            kept(base, self.impl_receiver_type(implementation, items).0.catalog()),
            self.impl_receiver_type(implementation, items).0.catalog().fits(),
        ensures
            self.impl_receiver_type(implementation, items).1 matches Ok(receiver)
                ==> !self.impl_receiver_type(implementation, items).0.catalog().lacks(receiver),
    {
        let (names, outcome) = self.impl_receiver_type(implementation, items);
        lemma_kept_free(base, names.catalog());
        match resolve_primitive_type_spec(implementation.name@) {
            Some(primitive) => {
                lemma_primitive_kind(implementation.name@);
            },
            None => {
                let symbol = self.insert(implementation.name@).1;
                if names.struct_map.contains_key(symbol.0) {
                    assert(names.catalog().struct_map.contains_key(symbol.0));
                    Type::lemma_round_trip(TypeKind::Struct(names.struct_map[symbol.0]));
                } else if names.enum_map.contains_key(symbol.0) {
                    assert(names.catalog().enum_map.contains_key(symbol.0));
                    Type::lemma_round_trip(TypeKind::Enum(names.enum_map[symbol.0]));
                }
            },
        }
    }
}

/// A primitive type is neither a struct nor an enum nor a slice.
proof fn lemma_primitive_kind(name: Seq<char>)
    ensures
        resolve_primitive_type_spec(name) matches Some(typ) ==> !(typ.kind() is Struct)
            && !(typ.kind() is Enum) && !(typ.kind() is Slice),
{
    if let Some(annotation) = ast::primitive_named(name) {
        let kind = match annotation {
            ast::Type::I8 => TypeKind::I8,
            ast::Type::U8 => TypeKind::U8,
            ast::Type::I16 => TypeKind::I16,
            ast::Type::U16 => TypeKind::U16,
            ast::Type::I32 => TypeKind::I32,
            ast::Type::U32 => TypeKind::U32,
            ast::Type::I64 => TypeKind::I64,
            ast::Type::U64 => TypeKind::U64,
            ast::Type::F32 => TypeKind::F32,
            ast::Type::F64 => TypeKind::F64,
            ast::Type::Bool => TypeKind::Bool,
            ast::Type::Uptr => TypeKind::Uptr,
            ast::Type::Iptr => TypeKind::Iptr,
            ast::Type::Char => TypeKind::Char,
            ast::Type::Str => TypeKind::Str,
            ast::Type::String => TypeKind::String,
            ast::Type::Never => TypeKind::Never,
            _ => TypeKind::Unit,
        };
        Type::lemma_round_trip(kind);
    }
}

impl<'hir> Names<'hir> {
    pub(crate) broadcast proof fn lemma_insert_generics_grows(
        self,
        generics: Seq<GenericBound<'hir>>,
        at: int,
        names: Seq<SymbolId>,
    )
        ensures
            extends(
                self.ledger(),
                (#[trigger] self.insert_generics(generics, at, names)).0.ledger(),
            ),
            carries(self.catalog(), self.insert_generics(generics, at, names).0.catalog()),
        decreases generics.len() - at,
    {
        broadcast use {
            lemma_extends_same, lemma_extends_trans, lemma_carries_same, lemma_carries_trans,
            Names::lemma_insert_grows,
        };

        if !(at < 0 || at >= generics.len()) {
            let (next, symbol) = self.insert(generics[at].name@);
            next.lemma_insert_generics_grows(generics, at + 1, names.push(symbol));
        }
    }

    pub(crate) broadcast proof fn lemma_declared_names_grows(
        self,
        generics: Seq<GenericBound<'hir>>,
        args: Seq<Type>,
    )
        ensures
            extends(self.ledger(), (#[trigger] self.declared_names(generics, args)).0.ledger()),
            carries(self.catalog(), self.declared_names(generics, args).0.catalog()),
    {
        broadcast use {
            lemma_extends_same, lemma_extends_trans, lemma_carries_same, lemma_carries_trans,
            Names::lemma_insert_generics_grows,
        };
    }

    pub(crate) broadcast proof fn lemma_resolve_type_grows(
        self,
        typ: ast::Type<'hir>,
        span: Span,
        ctx: ResolveCtx<'hir>,
        fuel: nat,
    )
        ensures
            extends(self.ledger(), (#[trigger] self.resolve_type(typ, span, ctx, fuel)).0.ledger()),
            carries(self.catalog(), self.resolve_type(typ, span, ctx, fuel).0.catalog()),
        decreases fuel, 9nat, typ, 0nat,
    {
        broadcast use {
            lemma_extends_same, lemma_extends_trans, lemma_carries_same, lemma_carries_trans,
            Names::lemma_intern_array_grows,
        };

        match typ {
            ast::Type::Ref(inner, mutable) => {
                self.lemma_resolve_type_grows(*inner, span, ctx, fuel);
            },
            ast::Type::Array(element, len) => {
                self.lemma_resolve_type_grows(*element, span, ctx, fuel);
            },
            ast::Type::Slice(element, mutable) => {
                self.lemma_resolve_type_grows(*element, span, ctx, fuel);
            },
            ast::Type::Generic(name, args) => {
                self.lemma_resolve_types_grows(args@, 0, seq![], ctx, fuel);
                match self.resolve_types(args@, 0, seq![], ctx, fuel) {
                    (names, Ok(args)) => {
                        if ctx.instantiate {
                            names.lemma_instantiate_generic_grows(name@, args, span, fuel);
                        }
                    },
                    _ => {},
                }
            },
            _ => {},
        }
    }

    pub(crate) broadcast proof fn lemma_resolve_types_grows(
        self,
        types: Seq<Spanned<ast::Type<'hir>>>,
        at: nat,
        resolved: Seq<Type>,
        ctx: ResolveCtx<'hir>,
        fuel: nat,
    )
        ensures
            extends(
                self.ledger(),
                (#[trigger] self.resolve_types(types, at, resolved, ctx, fuel)).0.ledger(),
            ),
            carries(self.catalog(), self.resolve_types(types, at, resolved, ctx, fuel).0.catalog()),
        decreases fuel, 9nat, types, types.len() - at,
    {
        broadcast use {
            lemma_extends_same, lemma_extends_trans, lemma_carries_same, lemma_carries_trans,
        };

        if at < types.len() {
            self.lemma_resolve_type_grows(types[at as int].value, types[at as int].span, ctx, fuel);
            match self.resolve_type(types[at as int].value, types[at as int].span, ctx, fuel) {
                (names, Ok(typ)) => {
                    names.lemma_resolve_types_grows(types, at + 1, resolved.push(typ), ctx, fuel);
                },
                _ => {},
            }
        }
    }

    pub(crate) broadcast proof fn lemma_resolve_params_grows(
        self,
        params: Seq<ast::Parameter<'hir>>,
        at: nat,
        resolved: Seq<Type>,
        ctx: ResolveCtx<'hir>,
        fuel: nat,
    )
        ensures
            extends(
                self.ledger(),
                (#[trigger] self.resolve_params(params, at, resolved, ctx, fuel)).0.ledger(),
            ),
            carries(
                self.catalog(),
                self.resolve_params(params, at, resolved, ctx, fuel).0.catalog(),
            ),
        decreases fuel, 10nat, params, params.len() - at,
    {
        broadcast use {
            lemma_extends_same, lemma_extends_trans, lemma_carries_same, lemma_carries_trans,
        };

        if at < params.len() {
            let typ = params[at as int].typ;
            self.lemma_resolve_or_poison_grows(typ, ctx, fuel);
            match self.resolve_or_poison(typ, ctx, fuel) {
                (names, Ok(typ)) => {
                    names.lemma_resolve_params_grows(params, at + 1, resolved.push(typ), ctx, fuel);
                },
                _ => {},
            }
        }
    }

    pub(crate) broadcast proof fn lemma_resolve_or_poison_grows(
        self,
        typ: Spanned<ast::Type<'hir>>,
        ctx: ResolveCtx<'hir>,
        fuel: nat,
    )
        ensures
            extends(self.ledger(), (#[trigger] self.resolve_or_poison(typ, ctx, fuel)).0.ledger()),
            carries(self.catalog(), self.resolve_or_poison(typ, ctx, fuel).0.catalog()),
        decreases fuel, 9nat, typ, 1nat,
    {
        broadcast use {
            lemma_extends_same, lemma_extends_trans, lemma_carries_same, lemma_carries_trans,
            Names::lemma_poison_grows,
        };

        self.lemma_resolve_type_grows(typ.value, typ.span, ctx, fuel);
    }

    pub(crate) broadcast proof fn lemma_resolve_return_type_grows(
        self,
        return_type: Option<Spanned<ast::Type<'hir>>>,
        ctx: ResolveCtx<'hir>,
        fuel: nat,
    )
        ensures
            extends(
                self.ledger(),
                (#[trigger] self.resolve_return_type(return_type, ctx, fuel)).0.ledger(),
            ),
            carries(self.catalog(), self.resolve_return_type(return_type, ctx, fuel).0.catalog()),
        decreases fuel, 10nat, return_type, 0nat,
    {
        broadcast use {
            lemma_extends_same, lemma_extends_trans, lemma_carries_same, lemma_carries_trans,
        };

        match return_type {
            Some(typ) => {
                self.lemma_resolve_or_poison_grows(typ, ctx, fuel);
            },
            _ => {},
        }
    }

    pub(crate) broadcast proof fn lemma_instantiate_generic_grows(
        self,
        name: Seq<char>,
        args: Seq<Type>,
        span: Span,
        fuel: nat,
    )
        ensures
            extends(
                self.ledger(),
                (#[trigger] self.instantiate_generic(name, args, span, fuel)).0.ledger(),
            ),
            carries(self.catalog(), self.instantiate_generic(name, args, span, fuel).0.catalog()),
        decreases fuel, 8nat, args, 0nat,
    {
        broadcast use {
            lemma_extends_same, lemma_extends_trans, lemma_carries_same, lemma_carries_trans,
            Names::lemma_insert_grows,
        };

        let (names, instance) = self.insert(self.mangle_generic(name, args));
        match names.nominal_type(instance) {
            None => {
                let (as_enum, as_struct) = match names.get_id(name) {
                    Some(symbol) => (
                        lookup(names.generic_enums, symbol.0),
                        lookup(names.generic_structs, symbol.0),
                    ),
                    None => (None, None),
                };
                match (as_enum, as_struct) {
                    (Some(template), _) => {
                        names.lemma_instantiate_enum_grows(*template, instance, args, span, fuel);
                    },
                    (None, Some(template)) => {
                        names.lemma_instantiate_struct_grows(*template, instance, args, span, fuel);
                    },
                    _ => {},
                }
            },
            _ => {},
        }
    }

    pub(crate) broadcast proof fn lemma_instantiate_enum_grows(
        self,
        template: ast::Enum<'hir>,
        instance: SymbolId,
        args: Seq<Type>,
        span: Span,
        fuel: nat,
    )
        ensures
            extends(
                self.ledger(),
                (#[trigger] self.instantiate_enum(template, instance, args, span, fuel)).0.ledger(),
            ),
            self.nominal_type(instance) is None && instance.0 < self.symbols.len() ==> carries(
                self.catalog(),
                self.instantiate_enum(template, instance, args, span, fuel).0.catalog(),
            ),
        decreases fuel, 7nat, args, 0nat,
    {
        broadcast use {
            lemma_extends_same, lemma_extends_trans, lemma_carries_same, lemma_carries_trans,
            Names::lemma_declare_enum_grows, Names::lemma_declared_names_grows,
            Names::lemma_set_variants_grows,
        };

        if !(fuel == 0) {
            match self.check_generic_args(template.name@, template.generics@, args, span) {
                Ok(_) => {
                    match enum_repr(template.repr, template.variants@) {
                        Ok(repr) => {
                            let (named, generics) = self.declared_names(template.generics@, args);
                            let (declared, id) = named.declare_enum(
                                instance,
                                repr,
                                no_span(),
                                generics,
                            );
                            let ctx = ResolveCtx::items_spec(
                                None,
                                substitution(template.generics@, args),
                            );
                            declared.lemma_instance_variants_grows(
                                template.variants@,
                                0,
                                instance,
                                id,
                                0,
                                seq![],
                                seq![],
                                ctx,
                                fuel,
                            );
                            match declared.instance_variants(
                                template.variants@,
                                0,
                                instance,
                                id,
                                0,
                                seq![],
                                seq![],
                                ctx,
                                fuel,
                            ) {
                                (names, Ok(variants)) => {
                                    let names = names.set_variants(
                                        self.enums.len() as int,
                                        variants,
                                    );
                                    let receiver = Type::enumerable(id);
                                    names.lemma_specialize_impls_grows(
                                        names.generic_impls,
                                        0,
                                        template.name@,
                                        instance,
                                        receiver,
                                        args,
                                        fuel,
                                    );
                                },
                                _ => {},
                            }
                        },
                        _ => {},
                    }
                },
                _ => {},
            }
        }
        reveal(carries);
        let after = self.instantiate_enum(template, instance, args, span, fuel).0;
        let (named, generics) = self.declared_names(template.generics@, args);
        self.lemma_insert_generics_same(template.generics@, 0, seq![]);
        assert(self.symbols.len() <= named.symbols.len()) by {
            reveal(extends);
        }
        if fuel > 0 && self.nominal_type(instance) is None && instance.0 < self.symbols.len()
            && self.check_generic_args(
            template.name@,
            template.generics@,
            args,
            span,
        ) is Ok && enum_repr(template.repr, template.variants@) is Ok {
            let repr = enum_repr(template.repr, template.variants@)->Ok_0;
            let (declared, id) = named.declare_enum(instance, repr, no_span(), generics);
            let ctx = ResolveCtx::items_spec(None, substitution(template.generics@, args));
            assert(carries(self.catalog(), declared.catalog()));
            let (mid, outcome) = declared.instance_variants(
                template.variants@,
                0,
                instance,
                id,
                0,
                seq![],
                seq![],
                ctx,
                fuel,
            );
            if let Ok(lowered) = outcome {
                let filled = mid.set_variants(self.enums.len() as int, lowered);
                let receiver = Type::enumerable(id);
                assert(extends(declared.ledger(), after.ledger()));
                assert forall|base: Catalog<'hir>| #[trigger]
                    kept(base, self.catalog()) implies kept(base, after.catalog()) by {
                    assert(kept(base, declared.catalog()));
                    assert(kept(base, mid.catalog()));
                    if after.catalog().fits() {
                        lemma_fits(declared, after);
                        lemma_fits(self, after);
                        lemma_kept_free(base, self.catalog());
                        assert(kept(base, filled.catalog()));
                        Type::lemma_round_trip(TypeKind::Enum(id));
                        assert(base.lacks(receiver));
                    } else {
                        lemma_kept_large(base, self.catalog(), after.catalog());
                    }
                }
            }
        }
    }

    pub(crate) broadcast proof fn lemma_instance_variants_grows(
        self,
        variants: Seq<ast::EnumVariant<'hir>>,
        at: nat,
        instance: SymbolId,
        id: EnumId,
        next_value: i64,
        declared: Seq<SymbolId>,
        lowered: Seq<EnumVariant>,
        ctx: ResolveCtx<'hir>,
        fuel: nat,
    )
        ensures
            extends(
                self.ledger(),
                (#[trigger] self.instance_variants(
                    variants,
                    at,
                    instance,
                    id,
                    next_value,
                    declared,
                    lowered,
                    ctx,
                    fuel,
                )).0.ledger(),
            ),
            carries(
                self.catalog(),
                self.instance_variants(
                    variants,
                    at,
                    instance,
                    id,
                    next_value,
                    declared,
                    lowered,
                    ctx,
                    fuel,
                ).0.catalog(),
            ),
        decreases fuel, 6nat, variants, variants.len() - at,
    {
        broadcast use {
            lemma_extends_same, lemma_extends_trans, lemma_carries_same, lemma_carries_trans,
            Names::lemma_insert_grows,
        };

        if !(at >= variants.len() || fuel == 0) {
            let variant = variants[at as int];
            let (names, symbol) = self.insert(variant.name@);
            if !declared.contains(symbol) {
                let value = match variant.value { Some(value) => value, None => next_value, };
                match variant.payload {
                    Some(typ) => {
                        names.lemma_resolve_or_poison_grows(typ, ctx, (fuel - 1) as nat);
                    },
                    _ => {},
                }
                let (names, payload) = match variant.payload {
                    None => (names, Ok(None)),
                    Some(typ) => match names.resolve_or_poison(typ, ctx, (fuel - 1) as nat) {
                        (names, Err(error)) => (names, Err(error)),
                        (names, Ok(typ)) => (names, Ok(Some(typ))),
                    },
                };
                match payload {
                    Ok(payload) => {
                        let names = Names {
                            enum_variants: names.enum_variants.insert(
                                nested_key(instance, symbol),
                                (id, value),
                            ),
                            ..names
                        };
                        names.lemma_instance_variants_grows(
                            variants,
                            at + 1,
                            instance,
                            id,
                            value.wrapping_add(1),
                            declared.push(symbol),
                            lowered.push(EnumVariant { name: symbol, value, payload }),
                            ctx,
                            fuel,
                        );
                    },
                    _ => {},
                }
            }
        }
    }

    pub(crate) broadcast proof fn lemma_instantiate_struct_grows(
        self,
        template: ast::Struct<'hir>,
        instance: SymbolId,
        args: Seq<Type>,
        span: Span,
        fuel: nat,
    )
        ensures
            extends(
                self.ledger(),
                (#[trigger] self.instantiate_struct(
                    template,
                    instance,
                    args,
                    span,
                    fuel,
                )).0.ledger(),
            ),
            self.nominal_type(instance) is None && instance.0 < self.symbols.len() ==> carries(
                self.catalog(),
                self.instantiate_struct(template, instance, args, span, fuel).0.catalog(),
            ),
        decreases fuel, 7nat, args, 0nat,
    {
        broadcast use {
            lemma_extends_same, lemma_extends_trans, lemma_carries_same, lemma_carries_trans,
            Names::lemma_declare_struct_grows, Names::lemma_declared_names_grows,
            Names::lemma_set_fields_grows,
        };

        if !(fuel == 0) {
            match self.check_generic_args(template.name@, template.generics@, args, span) {
                Ok(_) => {
                    let (named, generics) = self.declared_names(template.generics@, args);
                    let (declared, id) = named.declare_struct(
                        instance,
                        no_span(),
                        template.repr,
                        generics,
                    );
                    let ctx = ResolveCtx::items_spec(None, substitution(template.generics@, args));
                    declared.lemma_instance_fields_grows(template.fields@, 0, seq![], ctx, fuel);
                    match declared.instance_fields(template.fields@, 0, seq![], ctx, fuel) {
                        (names, Ok(fields)) => {
                            let names = names.set_fields(self.structs.len() as int, fields);
                            let receiver = Type::structure(id);
                            names.lemma_specialize_impls_grows(
                                names.generic_impls,
                                0,
                                template.name@,
                                instance,
                                receiver,
                                args,
                                fuel,
                            );
                        },
                        _ => {},
                    }
                },
                _ => {},
            }
        }
        reveal(carries);
        let after = self.instantiate_struct(template, instance, args, span, fuel).0;
        let (named, generics) = self.declared_names(template.generics@, args);
        self.lemma_insert_generics_same(template.generics@, 0, seq![]);
        assert(self.symbols.len() <= named.symbols.len()) by {
            reveal(extends);
        }
        if fuel > 0 && self.nominal_type(instance) is None && instance.0 < self.symbols.len()
            && self.check_generic_args(
            template.name@,
            template.generics@,
            args,
            span,
        ) is Ok {
            let (declared, id) = named.declare_struct(
                instance,
                no_span(),
                template.repr,
                generics,
            );
            let ctx = ResolveCtx::items_spec(None, substitution(template.generics@, args));
            assert(carries(self.catalog(), declared.catalog()));
            let (mid, outcome) = declared.instance_fields(template.fields@, 0, seq![], ctx, fuel);
            if let Ok(lowered) = outcome {
                let filled = mid.set_fields(self.structs.len() as int, lowered);
                let receiver = Type::structure(id);
                assert(extends(declared.ledger(), after.ledger()));
                assert forall|base: Catalog<'hir>| #[trigger]
                    kept(base, self.catalog()) implies kept(base, after.catalog()) by {
                    assert(kept(base, declared.catalog()));
                    assert(kept(base, mid.catalog()));
                    if after.catalog().fits() {
                        lemma_fits(declared, after);
                        lemma_fits(self, after);
                        lemma_kept_free(base, self.catalog());
                        assert(kept(base, filled.catalog()));
                        Type::lemma_round_trip(TypeKind::Struct(id));
                        assert(base.lacks(receiver));
                    } else {
                        lemma_kept_large(base, self.catalog(), after.catalog());
                    }
                }
            }
        }
    }

    pub(crate) broadcast proof fn lemma_instance_fields_grows(
        self,
        fields: Seq<ast::Field<'hir>>,
        at: nat,
        lowered: Seq<StructField>,
        ctx: ResolveCtx<'hir>,
        fuel: nat,
    )
        ensures
            extends(
                self.ledger(),
                (#[trigger] self.instance_fields(fields, at, lowered, ctx, fuel)).0.ledger(),
            ),
            carries(
                self.catalog(),
                self.instance_fields(fields, at, lowered, ctx, fuel).0.catalog(),
            ),
        decreases fuel, 6nat, fields, fields.len() - at,
    {
        broadcast use {
            lemma_extends_same, lemma_extends_trans, lemma_carries_same, lemma_carries_trans,
            Names::lemma_insert_grows,
        };

        if !(at >= fields.len() || fuel == 0) {
            let field = fields[at as int];
            self.lemma_resolve_or_poison_grows(field.typ, ctx, (fuel - 1) as nat);
            match self.resolve_or_poison(field.typ, ctx, (fuel - 1) as nat) {
                (names, Ok(typ)) => {
                    let (names, symbol) = names.insert(field.name@);
                    names.lemma_instance_fields_grows(
                        fields,
                        at + 1,
                        lowered.push(StructField { name: symbol, typ, offset: 0 }),
                        ctx,
                        fuel,
                    );
                },
                _ => {},
            }
        }
    }

    pub(crate) broadcast proof fn lemma_specialize_impls_grows(
        self,
        impls: Seq<&'hir ast::Impl<'hir>>,
        at: nat,
        template_name: Seq<char>,
        instance: SymbolId,
        receiver: Type,
        args: Seq<Type>,
        fuel: nat,
    )
        ensures
            extends(
                self.ledger(),
                (#[trigger] self.specialize_impls(
                    impls,
                    at,
                    template_name,
                    instance,
                    receiver,
                    args,
                    fuel,
                )).0.ledger(),
            ),
            carries_for(
                receiver,
                self.catalog(),
                self.specialize_impls(impls, at, template_name, instance, receiver, args, fuel).0.catalog(),
            ),
        decreases fuel, 5nat, impls, impls.len() - at,
    {
        broadcast use {
            lemma_extends_same, lemma_extends_trans, lemma_carries_same, lemma_carries_trans,
            Names::lemma_add_impl_grows, Names::lemma_insert_grows,
        };

        if at < impls.len() {
            let implementation = *impls[at as int];
            if implementation.name@ != template_name {
                self.lemma_specialize_impls_grows(
                    impls,
                    at + 1,
                    template_name,
                    instance,
                    receiver,
                    args,
                    fuel,
                );
            } else {
                let names = match implementation.interface {
                    Some(interface) => {
                        let (names, symbol) = self.insert(interface@);
                        names.add_impl(receiver, symbol)
                    },
                    None => self,
                };
                let env = impl_substitution(implementation, args);
                names.lemma_specialize_methods_grows(
                    implementation,
                    0,
                    instance,
                    receiver,
                    env,
                    fuel,
                );
                match names.specialize_methods(implementation, 0, instance, receiver, env, fuel) {
                    (names, Ok(_)) => {
                        names.lemma_specialize_impls_grows(
                            impls,
                            at + 1,
                            template_name,
                            instance,
                            receiver,
                            args,
                            fuel,
                        );
                    },
                    _ => {},
                }
            }
        }
        reveal(carries);
    }

    pub(crate) broadcast proof fn lemma_specialize_methods_grows(
        self,
        implementation: ast::Impl<'hir>,
        at: nat,
        instance: SymbolId,
        receiver: Type,
        env: Seq<(&'hir str, Type)>,
        fuel: nat,
    )
        ensures
            extends(
                self.ledger(),
                (#[trigger] self.specialize_methods(
                    implementation,
                    at,
                    instance,
                    receiver,
                    env,
                    fuel,
                )).0.ledger(),
            ),
            carries_for(
                receiver,
                self.catalog(),
                self.specialize_methods(implementation, at, instance, receiver, env, fuel).0.catalog(),
            ),
        decreases fuel, 4nat, implementation, implementation.methods@.len() - at,
    {
        broadcast use {
            lemma_extends_same, lemma_extends_trans, lemma_carries_same, lemma_carries_trans,
        };

        if !(at >= implementation.methods@.len() || fuel == 0) {
            self.lemma_specialize_method_grows(
                implementation,
                implementation.methods@[at as int],
                instance,
                receiver,
                env,
                fuel,
            );
            match self.specialize_method(
                implementation,
                implementation.methods@[at as int],
                instance,
                receiver,
                env,
                fuel,
            ) {
                (names, Ok(_)) => {
                    names.lemma_specialize_methods_grows(
                        implementation,
                        at + 1,
                        instance,
                        receiver,
                        env,
                        fuel,
                    );
                },
                _ => {},
            }
        }
        reveal(carries);
    }

    pub(crate) broadcast proof fn lemma_specialize_method_grows(
        self,
        implementation: ast::Impl<'hir>,
        method: &'hir ast::Function<'hir>,
        instance: SymbolId,
        receiver: Type,
        env: Seq<(&'hir str, Type)>,
        fuel: nat,
    )
        ensures
            extends(
                self.ledger(),
                (#[trigger] self.specialize_method(
                    implementation,
                    method,
                    instance,
                    receiver,
                    env,
                    fuel,
                )).0.ledger(),
            ),
            carries_for(
                receiver,
                self.catalog(),
                self.specialize_method(implementation, method, instance, receiver, env, fuel).0.catalog(),
            ),
        decreases fuel, 3nat, implementation, 0nat,
    {
        broadcast use {
            lemma_extends_same, lemma_extends_trans, lemma_carries_same, lemma_carries_trans,
            Names::lemma_add_instance_method_grows, Names::lemma_insert_grows,
        };

        if !(fuel == 0) {
            let (names, _) = self.insert(method.name@);
            let (names, _) = names.insert(
                names.method_name(names.name(instance), implementation.interface, method.name@),
            );
            let ctx = ResolveCtx::items_spec(Some(receiver), env + param_env(method.generics@));
            let first = match method.receiver {
                Some(r) => seq![receiver_param_type(receiver, r.mutable)],
                None => seq![],
            };
            names.lemma_resolve_params_grows(method.params@, 0, first, ctx, (fuel - 1) as nat);
            match names.resolve_params(method.params@, 0, first, ctx, (fuel - 1) as nat) {
                (names, Ok(params)) => {
                    names.lemma_resolve_return_type_grows(
                        method.return_type,
                        ctx,
                        (fuel - 1) as nat,
                    );
                },
                _ => {},
            }
        }
        reveal(carries);
    }

    pub(crate) broadcast proof fn lemma_add_instance_method_grows(
        self,
        implementation: ast::Impl<'hir>,
        method: &'hir ast::Function<'hir>,
        method_symbol: SymbolId,
        mangled: SymbolId,
        receiver: Type,
        params: Seq<Type>,
        return_type: Type,
        env: Seq<(&'hir str, Type)>,
    )
        ensures
            extends(
                self.ledger(),
                (#[trigger] self.add_instance_method(
                    implementation,
                    method,
                    method_symbol,
                    mangled,
                    receiver,
                    params,
                    return_type,
                    env,
                )).ledger(),
            ),
            carries_for(
                receiver,
                self.catalog(),
                self.add_instance_method(
                    implementation,
                    method,
                    method_symbol,
                    mangled,
                    receiver,
                    params,
                    return_type,
                    env,
                ).catalog(),
            ),
    {
        broadcast use {
            lemma_extends_same, lemma_extends_trans, lemma_carries_same, lemma_carries_trans,
            Names::lemma_template_grows, Names::lemma_push_signature_grows,
        };

        let after = self.add_instance_method(
            implementation,
            method,
            method_symbol,
            mangled,
            receiver,
            params,
            return_type,
            env,
        );
        assert forall|base: Catalog<'hir>| #[trigger]
            kept(base, self.catalog()) && base.lacks(receiver) && !self.catalog().lacks(
            receiver,
        ) implies kept(base, after.catalog()) by {
            reveal(kept);
            if after.catalog().fits() && method.receiver is Some {
                let id = FunctionId(self.signatures.len() as u32);
                lemma_owned(self.catalog(), after.catalog(), receiver, method_symbol, id);
            }
            lemma_step(base, self.catalog(), after.catalog());
        }
    }

    pub(crate) broadcast proof fn lemma_specialize_slice_impls_grows(self, slice: Type, fuel: nat)
        ensures
            extends(
                self.ledger(),
                (#[trigger] self.specialize_slice_impls(slice, fuel)).0.ledger(),
            ),
            carries(self.catalog(), self.specialize_slice_impls(slice, fuel).0.catalog()),
    {
        broadcast use {
            lemma_extends_same, lemma_extends_trans, lemma_carries_same, lemma_carries_trans,
            Names::lemma_insert_grows, Names::lemma_specialize_impls_grows,
        };

        reveal(carries);
        if let TypeKind::Slice { mutable, element } = slice.kind() {
            let canonical = Type::slice(element, false);
            Type::lemma_tag(TypeKind::Slice { mutable: false, element });
            if !self.specialized_slices.contains(canonical) {
                let listed = Names {
                    specialized_slices: self.specialized_slices.push(canonical),
                    ..self
                };
                let after = self.specialize_slice_impls(slice, fuel).0;
                assert(listed.specialized_slices.last() == canonical);
                assert forall|slice: Type| self.specialized_slices.contains(
                    slice,
                ) implies #[trigger] listed.specialized_slices.contains(slice) by {
                    let i = self.specialized_slices.index_of(slice);
                    assert(listed.specialized_slices[i] == slice);
                }
                assert(found(self.catalog(), listed.catalog()));
                assert(!listed.catalog().lacks(canonical));
                assert forall|base: Catalog<'hir>| #[trigger]
                    kept(base, self.catalog()) implies kept(base, after.catalog()) by {
                    if after.catalog().fits() {
                        lemma_fits(self, after);
                        assert(kept(base, listed.catalog()) && base.lacks(canonical)) by {
                            reveal(kept);
                            lemma_step(base, self.catalog(), listed.catalog());
                            assert(!self.catalog().slices.contains(canonical));
                        }
                    } else {
                        lemma_kept_large(base, self.catalog(), after.catalog());
                    }
                }
            }
        }
    }

    pub(crate) broadcast proof fn lemma_enum_variants_of_grows(
        self,
        variants: Seq<ast::EnumVariant<'hir>>,
        at: nat,
        owner: SymbolId,
        id: EnumId,
        next_value: i64,
        declared: Seq<SymbolId>,
        lowered: Seq<EnumVariant>,
    )
        ensures
            extends(
                self.ledger(),
                (#[trigger] self.enum_variants_of(
                    variants,
                    at,
                    owner,
                    id,
                    next_value,
                    declared,
                    lowered,
                )).0.ledger(),
            ),
            carries(
                self.catalog(),
                self.enum_variants_of(
                    variants,
                    at,
                    owner,
                    id,
                    next_value,
                    declared,
                    lowered,
                ).0.catalog(),
            ),
        decreases variants.len() - at,
    {
        broadcast use {
            lemma_extends_same, lemma_extends_trans, lemma_carries_same, lemma_carries_trans,
            Names::lemma_insert_grows, Names::lemma_resolve_or_poison_grows,
            Names::lemma_soft_grows,
        };

        if at < variants.len() {
            let variant = variants[at as int];
            let (names, symbol) = self.insert(variant.name@);
            if declared.contains(symbol) {
                let duplicate = HirError::new(
                    HirErrorKind::DuplicateVariant { name: variant.name@},
                    variant.span,
                );
                match names.soft(duplicate) {
                    (names, Ok(_)) => {
                        names.lemma_enum_variants_of_grows(
                            variants,
                            at + 1,
                            owner,
                            id,
                            next_value,
                            declared,
                            lowered,
                        );
                    },
                    _ => {},
                }
            } else {
                let value = match variant.value { Some(value) => value, None => next_value, };
                let (names, payload) = match variant.payload {
                    None => (names, Ok(None)),
                    Some(typ) => match names.resolve_or_poison(
                        typ,
                        ResolveCtx::items_spec(None, seq![]),
                        MAX_DEPTH as nat,
                    ) {
                        (names, Err(error)) => (names, Err(error)),
                        (names, Ok(typ)) => (names, Ok(Some(typ))),
                    },
                };
                match payload {
                    Ok(payload) => {
                        let names = Names {
                            enum_variants: names.enum_variants.insert(
                                nested_key(owner, symbol),
                                (id, value),
                            ),
                            ..names
                        };
                        names.lemma_enum_variants_of_grows(
                            variants,
                            at + 1,
                            owner,
                            id,
                            value.wrapping_add(1),
                            declared.push(symbol),
                            lowered.push(EnumVariant { name: symbol, value, payload }),
                        );
                    },
                    _ => {},
                }
            }
        }
    }

    pub(crate) broadcast proof fn lemma_extend_enum_grows(
        self,
        declaration: &'hir ast::Enum<'hir>,
        structs: Seq<&'hir ast::Struct<'hir>>,
    )
        ensures
            extends(self.ledger(), (#[trigger] self.extend_enum(declaration, structs)).0.ledger()),
            carries(self.catalog(), self.extend_enum(declaration, structs).0.catalog()),
    {
        broadcast use {
            lemma_extends_same, lemma_extends_trans, lemma_carries_same, lemma_carries_trans,
            Names::lemma_declare_enum_grows, Names::lemma_enum_variants_of_grows,
            Names::lemma_insert_grows, Names::lemma_set_variants_grows, Names::lemma_soft_grows,
        };

        reveal(extends);
        reveal(kept);
        reveal(carries);
    }

    pub(crate) broadcast proof fn lemma_extend_enums_grows(self, items: Items<'hir>, at: nat)
        ensures
            extends(self.ledger(), (#[trigger] self.extend_enums(items, at)).0.ledger()),
            carries(self.catalog(), self.extend_enums(items, at).0.catalog()),
        decreases items.enums.len() - at,
    {
        broadcast use {
            lemma_extends_same, lemma_extends_trans, lemma_carries_same, lemma_carries_trans,
            Names::lemma_extend_enum_grows,
        };

        if at < items.enums.len() {
            match self.extend_enum(items.enums[at as int], items.structs) {
                (names, Ok(_)) => {
                    names.lemma_extend_enums_grows(items, at + 1);
                },
                _ => {},
            }
        }
    }

    pub(crate) broadcast proof fn lemma_insert_all_grows(
        self,
        words: Seq<&'hir str>,
        at: nat,
        symbols: Seq<SymbolId>,
    )
        ensures
            extends(self.ledger(), (#[trigger] self.insert_all(words, at, symbols)).0.ledger()),
            carries(self.catalog(), self.insert_all(words, at, symbols).0.catalog()),
        decreases words.len() - at,
    {
        broadcast use {
            lemma_extends_same, lemma_extends_trans, lemma_carries_same, lemma_carries_trans,
            Names::lemma_insert_grows,
        };

        if at < words.len() {
            let (names, symbol) = self.insert(words[at as int]@);
            names.lemma_insert_all_grows(words, at + 1, symbols.push(symbol));
        }
    }

    pub(crate) broadcast proof fn lemma_interface_methods_grows(
        self,
        methods: Seq<ast::InterfaceMethod<'hir>>,
        at: nat,
        ctx: ResolveCtx<'hir>,
        lowered: Seq<InterfaceMethodSignature<'hir>>,
    )
        ensures
            extends(
                self.ledger(),
                (#[trigger] self.interface_methods(methods, at, ctx, lowered)).0.ledger(),
            ),
            carries(self.catalog(), self.interface_methods(methods, at, ctx, lowered).0.catalog()),
        decreases methods.len() - at,
    {
        broadcast use {
            lemma_extends_same, lemma_extends_trans, lemma_carries_same, lemma_carries_trans,
            Names::lemma_insert_grows, Names::lemma_resolve_params_grows,
            Names::lemma_resolve_return_type_grows,
        };

        if at < methods.len() {
            let method = methods[at as int];
            let (names, symbol) = self.insert(method.name@);
            match names.resolve_params(method.params@, 0, seq![], ctx, MAX_DEPTH as nat) {
                (names, Ok(params)) => {
                    match names.resolve_return_type(method.return_type, ctx, MAX_DEPTH as nat) {
                        (names, Ok(return_type)) => {
                            names.lemma_interface_methods_grows(
                                methods,
                                at + 1,
                                ctx,
                                lowered.push(
                                    InterfaceMethodSignature {
                                        name: symbol,
                                        params: slice_of(params),
                                        return_type,
                                        has_receiver: method.receiver is Some,
                                        receiver_mut: match method.receiver {
                                            Some(receiver) => receiver.mutable,
                                            None => false,
                                        },
                                    },
                                ),
                            );
                        },
                        _ => {},
                    }
                },
                _ => {},
            }
        }
    }

    pub(crate) broadcast proof fn lemma_extend_interface_grows(
        self,
        interface: ast::Interface<'hir>,
    )
        ensures
            extends(self.ledger(), (#[trigger] self.extend_interface(interface)).0.ledger()),
            carries(self.catalog(), self.extend_interface(interface).0.catalog()),
    {
        broadcast use {
            lemma_extends_same, lemma_extends_trans, lemma_carries_same, lemma_carries_trans,
            Names::lemma_insert_grows, Names::lemma_insert_all_grows,
            Names::lemma_insert_generics_grows, Names::lemma_interface_methods_grows,
            Names::lemma_soft_grows,
        };

        reveal(carries);
        let after = self.extend_interface(interface).0;
        let (named, name) = self.insert(interface.name@);
        let listed = named.insert_all(interface.superinterfaces@, 0, seq![]).0;
        let bound = listed.insert_generics(interface.generics@, 0, seq![]).0;
        let ctx = ResolveCtx::items_spec(None, param_env(interface.generics@));
        let (end, methods) = bound.interface_methods(interface.methods@, 0, ctx, seq![]);
        if !named.interfaces.contains_key(name.0) && methods is Ok {
            assert(extends(named.ledger(), end.ledger()));
            assert(name.0 < end.symbols.len()) by {
                reveal(extends);
            }
            assert(found(end.catalog(), after.catalog()));
            assert forall|base: Catalog<'hir>| #[trigger]
                kept(base, self.catalog()) implies kept(base, after.catalog()) by {
                assert(kept(base, named.catalog()));
                assert(kept(base, listed.catalog()));
                assert(kept(base, bound.catalog()));
                assert(kept(base, end.catalog()));
                if after.catalog().fits() {
                    lemma_fits(named, end);
                    lemma_kept_free(base, named.catalog());
                    assert(!named.catalog().interfaces.contains_key(name.0));
                    reveal(kept);
                    lemma_step(base, end.catalog(), after.catalog());
                } else {
                    lemma_kept_large(base, self.catalog(), after.catalog());
                }
            }
        }
    }

    pub(crate) broadcast proof fn lemma_extend_interfaces_grows(
        self,
        interfaces: Seq<&'hir ast::Interface<'hir>>,
        at: nat,
    )
        ensures
            extends(self.ledger(), (#[trigger] self.extend_interfaces(interfaces, at)).0.ledger()),
            carries(self.catalog(), self.extend_interfaces(interfaces, at).0.catalog()),
        decreases interfaces.len() - at,
    {
        broadcast use {
            lemma_extends_same, lemma_extends_trans, lemma_carries_same, lemma_carries_trans,
            Names::lemma_extend_interface_grows,
        };

        if at < interfaces.len() {
            match self.extend_interface(*interfaces[at as int]) {
                (names, Ok(_)) => {
                    names.lemma_extend_interfaces_grows(interfaces, at + 1);
                },
                _ => {},
            }
        }
    }

    pub(crate) broadcast proof fn lemma_register_impls_grows(
        self,
        impls: Seq<&'hir ast::Impl<'hir>>,
        at: nat,
    )
        ensures
            extends(self.ledger(), (#[trigger] self.register_impls(impls, at)).ledger()),
            carries(self.catalog(), self.register_impls(impls, at).catalog()),
        decreases impls.len() - at,
    {
        broadcast use {
            lemma_extends_same, lemma_extends_trans, lemma_carries_same, lemma_carries_trans,
        };

        if at < impls.len() {
            let names = if is_generic_impl_spec(*impls[at as int]) {
                Names { generic_impls: self.generic_impls.push(impls[at as int]), ..self }
            } else {
                self
            };
            names.lemma_register_impls_grows(impls, at + 1);
        }
    }

    pub(crate) broadcast proof fn lemma_extend_function_grows(
        self,
        function: &'hir ast::Function<'hir>,
    )
        ensures
            extends(self.ledger(), (#[trigger] self.extend_function(function)).0.ledger()),
            carries(self.catalog(), self.extend_function(function).0.catalog()),
    {
        broadcast use {
            lemma_extends_same, lemma_extends_trans, lemma_carries_same, lemma_carries_trans,
            Names::lemma_add_function_grows, Names::lemma_insert_grows,
            Names::lemma_resolve_params_grows, Names::lemma_resolve_return_type_grows,
            Names::lemma_soft_grows,
        };

        reveal(carries);
    }

    pub(crate) broadcast proof fn lemma_add_function_grows(
        self,
        function: &'hir ast::Function<'hir>,
        symbol: SymbolId,
        params: Seq<Type>,
        return_type: Type,
    )
        ensures
            extends(
                self.ledger(),
                (#[trigger] self.add_function(function, symbol, params, return_type)).ledger(),
            ),
            found(
                self.catalog(),
                self.add_function(function, symbol, params, return_type).catalog(),
            ),
            forall|base: Catalog<'hir>, free: Names<'hir>|
                #![trigger kept(base, self.catalog()), kept(base, free.catalog())]
                kept(base, self.catalog()) && kept(base, free.catalog()) && extends(
                    free.ledger(),
                    self.ledger(),
                ) && !free.functions.contains_key(symbol.0) ==> kept(
                    base,
                    self.add_function(function, symbol, params, return_type).catalog(),
                ),
    {
        broadcast use {
            lemma_extends_same, lemma_extends_trans, lemma_carries_same, lemma_carries_trans,
            Names::lemma_template_grows, Names::lemma_push_signature_grows,
        };

        assert forall|base: Catalog<'hir>, free: Names<'hir>|
            #![trigger kept(base, self.catalog()), kept(base, free.catalog())]
            kept(base, self.catalog()) && kept(base, free.catalog()) && extends(
                free.ledger(),
                self.ledger(),
            ) && !free.functions.contains_key(symbol.0) implies kept(
            base,
            self.add_function(function, symbol, params, return_type).catalog(),
        ) by {
            let generic = function.generics@.len() > 0;
            let intrinsic = if self.in_std && !generic {
                Intrinsic::named(function.name@)
            } else {
                None
            };
            let signature = FunctionSignature {
                name: symbol,
                params: slice_of(params),
                return_type,
                kind: match intrinsic {
                    Some(intrinsic) => FunctionKind::Intrinsic(intrinsic),
                    None => FunctionKind::Free,
                },
                is_const: function.is_const,
            };
            self.lemma_new_function(base, free, signature, symbol.0);
            if generic {
                let (names, id) = self.push_signature(signature);
                let plain = Names { functions: names.functions.insert(symbol.0, id), ..names };
                let after = self.add_function(function, symbol, params, return_type);
                reveal(kept);
                lemma_step(base, plain.catalog(), after.catalog());
            }
        }
    }

    pub(crate) broadcast proof fn lemma_extend_functions_grows(
        self,
        functions: Seq<&'hir ast::Function<'hir>>,
        at: nat,
    )
        ensures
            extends(self.ledger(), (#[trigger] self.extend_functions(functions, at)).0.ledger()),
            carries(self.catalog(), self.extend_functions(functions, at).0.catalog()),
        decreases functions.len() - at,
    {
        broadcast use {
            lemma_extends_same, lemma_extends_trans, lemma_carries_same, lemma_carries_trans,
            Names::lemma_extend_function_grows,
        };

        if at < functions.len() {
            match self.extend_function(functions[at as int]) {
                (names, Ok(_)) => {
                    names.lemma_extend_functions_grows(functions, at + 1);
                },
                _ => {},
            }
        }
    }

    pub(crate) broadcast proof fn lemma_extend_syscall_grows(self)
        ensures
            extends(self.ledger(), (#[trigger] self.extend_syscall()).ledger()),
            carries(self.catalog(), self.extend_syscall().catalog()),
    {
        broadcast use {
            lemma_extends_same, lemma_extends_trans, lemma_carries_same, lemma_carries_trans,
            Names::lemma_insert_grows, Names::lemma_push_signature_grows,
        };

        reveal(carries);
        let after = self.extend_syscall();
        let (names, symbol) = self.insert(self.item("syscall"@));
        if self.in_std && !names.functions.contains_key(symbol.0) {
            assert forall|base: Catalog<'hir>| #[trigger]
                kept(base, self.catalog()) implies kept(base, after.catalog()) by {
                assert(kept(base, names.catalog()));
                reveal(kept);
                lemma_step(base, names.catalog(), after.catalog());
            }
        }
    }

    pub(crate) broadcast proof fn lemma_impl_receiver_type_grows(
        self,
        implementation: ast::Impl<'hir>,
        items: Items<'hir>,
    )
        ensures
            extends(
                self.ledger(),
                (#[trigger] self.impl_receiver_type(implementation, items)).0.ledger(),
            ),
            carries(self.catalog(), self.impl_receiver_type(implementation, items).0.catalog()),
    {
        broadcast use {
            lemma_extends_same, lemma_extends_trans, lemma_carries_same, lemma_carries_trans,
            Names::lemma_insert_grows,
        };
    }

    pub(crate) broadcast proof fn lemma_interface_args_grows(
        self,
        args: Seq<Spanned<ast::Type<'hir>>>,
        at: nat,
        ctx: ResolveCtx<'hir>,
        resolved: Seq<Type>,
    )
        ensures
            extends(
                self.ledger(),
                (#[trigger] self.interface_args(args, at, ctx, resolved)).0.ledger(),
            ),
            carries(self.catalog(), self.interface_args(args, at, ctx, resolved).0.catalog()),
        decreases args.len() - at,
    {
        broadcast use {
            lemma_extends_same, lemma_extends_trans, lemma_carries_same, lemma_carries_trans,
            Names::lemma_resolve_or_poison_grows,
        };

        if at < args.len() {
            match self.resolve_or_poison(args[at as int], ctx, MAX_DEPTH as nat) {
                (names, Ok(typ)) => {
                    names.lemma_interface_args_grows(args, at + 1, ctx, resolved.push(typ));
                },
                _ => {},
            }
        }
    }

    pub(crate) broadcast proof fn lemma_impl_param_env_grows(
        self,
        implementation: ast::Impl<'hir>,
        receiver: Type,
    )
        ensures
            extends(
                self.ledger(),
                (#[trigger] self.impl_param_env(implementation, receiver)).0.ledger(),
            ),
            carries(self.catalog(), self.impl_param_env(implementation, receiver).0.catalog()),
    {
        broadcast use {
            lemma_extends_same, lemma_extends_trans, lemma_carries_same, lemma_carries_trans,
            Names::lemma_add_impl_grows, Names::lemma_insert_grows,
            Names::lemma_interface_args_grows,
        };
    }

    pub(crate) broadcast proof fn lemma_extend_method_grows(
        self,
        implementation: ast::Impl<'hir>,
        method: ast::Function<'hir>,
        receiver: Type,
        ctx: ResolveCtx<'hir>,
    )
        ensures
            extends(
                self.ledger(),
                (#[trigger] self.extend_method(implementation, method, receiver, ctx)).0.ledger(),
            ),
            carries_on(
                receiver,
                self.catalog(),
                self.extend_method(implementation, method, receiver, ctx).0.catalog(),
            ),
    {
        broadcast use {
            lemma_extends_same, lemma_extends_trans, lemma_carries_same, lemma_carries_trans,
            Names::lemma_insert_grows, Names::lemma_push_signature_grows,
            Names::lemma_resolve_params_grows, Names::lemma_resolve_return_type_grows,
            Names::lemma_soft_grows,
        };

        reveal(carries);
        let after = self.extend_method(implementation, method, receiver, ctx).0;
        let (named, method_symbol) = self.insert(method.name@);
        let (names, mangled) = named.insert(
            named.method_name(implementation.name@, implementation.interface, method.name@),
        );
        let taken = match method.receiver {
            Some(_) => names.methods.contains_key(member_key(receiver, method_symbol)),
            None => names.functions.contains_key(mangled.0),
        };
        let first = match method.receiver {
            Some(r) => seq![Type::receiver_ref(receiver, r.mutable)],
            None => seq![],
        };
        let (mid, params) = names.resolve_params(method.params@, 0, first, ctx, MAX_DEPTH as nat);
        let (end, result) = mid.resolve_return_type(method.return_type, ctx, MAX_DEPTH as nat);
        if !taken && params is Ok && result is Ok {
            let signature = FunctionSignature {
                name: mangled,
                params: slice_of(params->Ok_0),
                return_type: result->Ok_0,
                kind: match method.receiver {
                    None => FunctionKind::Free,
                    Some(r) => match intrinsic_method_spec(
                        end.in_std,
                        implementation.name@,
                        method.name@,
                    ) {
                        Some(intrinsic) => FunctionKind::Intrinsic(intrinsic),
                        None => FunctionKind::Method(
                            Method { receiver, name: method_symbol, mutable: r.mutable },
                        ),
                    },
                },
                is_const: method.is_const,
            };
            assert(found(end.catalog(), after.catalog()));
            assert forall|base: Catalog<'hir>| #[trigger]
                kept(base, self.catalog()) && !self.catalog().lacks(receiver) implies kept(
                base,
                after.catalog(),
            ) by {
                assert(!end.catalog().lacks(receiver));
                assert(kept(base, names.catalog()));
                assert(kept(base, end.catalog()));
                if method.receiver is Some {
                    end.lemma_new_method(base, names, signature, receiver, method_symbol);
                } else {
                    end.lemma_new_function(base, names, signature, mangled.0);
                }
            }
        }
    }

    pub(crate) broadcast proof fn lemma_extend_methods_grows(
        self,
        implementation: ast::Impl<'hir>,
        at: nat,
        receiver: Type,
        ctx: ResolveCtx<'hir>,
    )
        ensures
            extends(
                self.ledger(),
                (#[trigger] self.extend_methods(implementation, at, receiver, ctx)).0.ledger(),
            ),
            carries_on(
                receiver,
                self.catalog(),
                self.extend_methods(implementation, at, receiver, ctx).0.catalog(),
            ),
        decreases implementation.methods@.len() - at,
    {
        broadcast use {
            lemma_extends_same, lemma_extends_trans, lemma_carries_same, lemma_carries_trans,
            Names::lemma_extend_method_grows,
        };

        if at < implementation.methods@.len() {
            match self.extend_method(
                implementation,
                *implementation.methods@[at as int],
                receiver,
                ctx,
            ) {
                (names, Ok(_)) => {
                    names.lemma_extend_methods_grows(implementation, at + 1, receiver, ctx);
                },
                _ => {},
            }
        }
        reveal(carries);
    }

    pub(crate) broadcast proof fn lemma_extend_impl_grows(
        self,
        implementation: ast::Impl<'hir>,
        items: Items<'hir>,
    )
        ensures
            extends(self.ledger(), (#[trigger] self.extend_impl(implementation, items)).0.ledger()),
            carries(self.catalog(), self.extend_impl(implementation, items).0.catalog()),
    {
        broadcast use {
            lemma_extends_same, lemma_extends_trans, lemma_carries_same, lemma_carries_trans,
            Names::lemma_extend_methods_grows, Names::lemma_impl_param_env_grows,
            Names::lemma_impl_receiver_type_grows, Names::lemma_soft_grows,
        };

        reveal(carries);
        if !is_generic_impl_spec(implementation) {
            let after = self.extend_impl(implementation, items).0;
            let (typed, receiver) = self.impl_receiver_type(implementation, items);
            if let Ok(receiver) = receiver {
                let named = typed.impl_param_env(implementation, receiver).0;
                assert(extends(self.ledger(), typed.ledger()));
                assert(extends(typed.ledger(), after.ledger()));
                assert forall|base: Catalog<'hir>| #[trigger]
                    kept(base, self.catalog()) implies kept(base, after.catalog()) by {
                    if after.catalog().fits() {
                        assert(kept(base, typed.catalog()));
                        lemma_fits(typed, after);
                        self.lemma_receiver_found(base, implementation, items);
                        assert(!named.catalog().lacks(receiver));
                    } else {
                        lemma_kept_large(base, self.catalog(), after.catalog());
                    }
                }
            }
        }
    }

    pub(crate) broadcast proof fn lemma_extend_impl_signatures_grows(
        self,
        items: Items<'hir>,
        at: nat,
    )
        ensures
            extends(self.ledger(), (#[trigger] self.extend_impl_signatures(items, at)).0.ledger()),
            carries(self.catalog(), self.extend_impl_signatures(items, at).0.catalog()),
        decreases items.impls.len() - at,
    {
        broadcast use {
            lemma_extends_same, lemma_extends_trans, lemma_carries_same, lemma_carries_trans,
            Names::lemma_extend_impl_grows,
        };

        if at < items.impls.len() {
            match self.extend_impl(*items.impls[at as int], items) {
                (names, Ok(_)) => {
                    names.lemma_extend_impl_signatures_grows(items, at + 1);
                },
                _ => {},
            }
        }
    }

    pub(crate) broadcast proof fn lemma_extend_signatures_grows(self, items: Items<'hir>)
        ensures
            extends(self.ledger(), (#[trigger] self.extend_signatures(items)).0.ledger()),
            carries(self.catalog(), self.extend_signatures(items).0.catalog()),
    {
        broadcast use {
            lemma_extends_same, lemma_extends_trans, lemma_carries_same, lemma_carries_trans,
            Names::lemma_extend_functions_grows, Names::lemma_extend_impl_signatures_grows,
            Names::lemma_extend_syscall_grows, Names::lemma_register_impls_grows,
        };
    }

    pub(crate) broadcast proof fn lemma_extend_types_grows(self, items: Items<'hir>)
        ensures
            extends(self.ledger(), (#[trigger] self.extend_types(items)).0.ledger()),
            carries(self.catalog(), self.extend_types(items).0.catalog()),
    {
        broadcast use {
            lemma_extends_same, lemma_extends_trans, lemma_carries_same, lemma_carries_trans,
            Names::lemma_declare_structs_grows, Names::lemma_extend_enums_grows,
            Names::lemma_lower_structs_grows,
        };

        reveal(carries);
        let after = self.extend_types(items).0;
        assert forall|base: Catalog<'hir>| #[trigger]
            kept(base, self.catalog()) implies kept(base, after.catalog()) by {
            let (declared, outcome) = self.declare_structs(items.structs, 0, seq![]);
            assert(kept(base, declared.catalog()));
            if after.catalog().fits() {
                assert(extends(declared.ledger(), after.ledger()));
                lemma_fits(declared, after);
                self.lemma_declared_after(base, items.structs, 0, seq![]);
            } else {
                lemma_kept_large(base, self.catalog(), after.catalog());
            }
        }
    }

    pub(crate) broadcast proof fn lemma_declare_structs_grows(
        self,
        structs: Seq<&'hir ast::Struct<'hir>>,
        at: nat,
        batch: Seq<StructDecl<'hir>>,
    )
        ensures
            extends(
                self.ledger(),
                (#[trigger] self.declare_structs(structs, at, batch)).0.ledger(),
            ),
            carries(self.catalog(), self.declare_structs(structs, at, batch).0.catalog()),
        decreases structs.len() - at,
    {
        broadcast use {
            lemma_extends_same, lemma_extends_trans, lemma_carries_same, lemma_carries_trans,
            Names::lemma_declare_struct_grows, Names::lemma_insert_grows, Names::lemma_soft_grows,
        };

        if at < structs.len() {
            let declaration = structs[at as int];
            let (names, symbol) = self.insert(declaration.name@);
            if names.is_nominal(symbol) {
                let duplicate = HirError::new(
                    HirErrorKind::DuplicateStruct { name: declaration.name@},
                    declaration.span,
                );
                match names.soft(duplicate) {
                    (names, Ok(_)) => {
                        names.lemma_declare_structs_grows(structs, at + 1, batch);
                    },
                    _ => {},
                }
            } else {
                if declaration.generics@.len() > 0 {
                    let names = Names {
                        generic_structs: names.generic_structs.insert(symbol.0, declaration),
                        ..names
                    };
                    names.lemma_declare_structs_grows(structs, at + 1, batch);
                } else {
                    let (names, id) = names.declare_struct(
                        symbol,
                        declaration.span,
                        declaration.repr,
                        seq![],
                    );
                    names.lemma_declare_structs_grows(
                        structs,
                        at + 1,
                        batch.push((id, declaration)),
                    );
                }
            }
        }
    }

    pub(crate) broadcast proof fn lemma_lower_struct_grows(
        self,
        batch: Seq<StructDecl<'hir>>,
        index: usize,
        states: Seq<Visit>,
        fuel: nat,
    )
        ensures
            extends(
                self.ledger(),
                (#[trigger] self.lower_struct(batch, index, states, fuel)).0.ledger(),
            ),
            carries_batch(
                batch,
                self.catalog(),
                self.lower_struct(batch, index, states, fuel).0.catalog(),
            ),
        decreases fuel, 1nat, 0nat,
    {
        broadcast use {
            lemma_extends_same, lemma_extends_trans, lemma_carries_same, lemma_carries_trans,
            Names::lemma_set_fields_grows,
        };

        if !(index >= batch.len() || index >= states.len()) {
            let (_, declaration) = batch[index as int];
            match states[index as int] {
                Visit::Unvisited => {
                    if !(fuel == 0) {
                        self.lemma_struct_fields_grows(
                            batch,
                            declaration.fields@,
                            0,
                            mark(states, index, Visit::Visiting),
                            seq![],
                            seq![],
                            fuel,
                        );
                    }
                },
                _ => {},
            }
        }
        reveal(carries);
    }

    pub(crate) broadcast proof fn lemma_field_annotation_grows(
        self,
        batch: Seq<StructDecl<'hir>>,
        field: ast::Field<'hir>,
        states: Seq<Visit>,
        fuel: nat,
    )
        ensures
            extends(
                self.ledger(),
                (#[trigger] self.field_annotation(batch, field, states, fuel)).0.ledger(),
            ),
            carries_batch(
                batch,
                self.catalog(),
                self.field_annotation(batch, field, states, fuel).0.catalog(),
            ),
        decreases fuel, 0nat, 0nat,
    {
        broadcast use {
            lemma_extends_same, lemma_extends_trans, lemma_carries_same, lemma_carries_trans,
            Names::lemma_poison_grows, Names::lemma_resolve_or_poison_grows,
        };

        let (names, typ) = self.resolve_or_poison(
            field.typ,
            ResolveCtx::root_spec(),
            MAX_DEPTH as nat,
        );
        match typ {
            Ok(typ) => {
                let held = match typ.kind() {
                    TypeKind::Struct(dep) => batch_position(batch, dep, 0),
                    _ => None,
                };
                match held {
                    Some(dep) => {
                        if !(fuel == 0) {
                            names.lemma_lower_struct_grows(batch, dep, states, (fuel - 1) as nat);
                        }
                    },
                    _ => {},
                }
            },
            _ => {},
        }
        reveal(carries);
    }

    pub(crate) broadcast proof fn lemma_struct_fields_grows(
        self,
        batch: Seq<StructDecl<'hir>>,
        declared: Seq<ast::Field<'hir>>,
        at: nat,
        states: Seq<Visit>,
        given: Seq<SymbolId>,
        fields: Seq<StructField>,
        fuel: nat,
    )
        ensures
            extends(
                self.ledger(),
                (#[trigger] self.struct_fields(
                    batch,
                    declared,
                    at,
                    states,
                    given,
                    fields,
                    fuel,
                )).0.ledger(),
            ),
            carries_batch(
                batch,
                self.catalog(),
                self.struct_fields(batch, declared, at, states, given, fields, fuel).0.catalog(),
            ),
        decreases fuel, 0nat, declared.len() - at + 1,
    {
        broadcast use {
            lemma_extends_same, lemma_extends_trans, lemma_carries_same, lemma_carries_trans,
            Names::lemma_insert_grows, Names::lemma_soft_grows,
        };

        if at < declared.len() {
            let field = declared[at as int];
            let (names, symbol) = self.insert(field.name@);
            if given.contains(symbol) {
                let duplicate = HirError::new(
                    HirErrorKind::DuplicateField { name: field.name@},
                    field.span,
                );
                match names.soft(duplicate) {
                    (names, Ok(_)) => {
                        names.lemma_struct_fields_grows(
                            batch,
                            declared,
                            at + 1,
                            states,
                            given,
                            fields,
                            fuel,
                        );
                    },
                    _ => {},
                }
            } else {
                names.lemma_field_annotation_grows(batch, field, states, fuel);
                match names.field_annotation(batch, field, states, fuel) {
                    (names, states, Ok(typ)) => {
                        names.lemma_struct_fields_grows(
                            batch,
                            declared,
                            at + 1,
                            states,
                            given.push(symbol),
                            fields.push(StructField { name: symbol, typ, offset: 0 }),
                            fuel,
                        );
                    },
                    _ => {},
                }
            }
        }
        reveal(carries);
    }

    pub(crate) broadcast proof fn lemma_lower_structs_grows(
        self,
        batch: Seq<StructDecl<'hir>>,
        at: nat,
        states: Seq<Visit>,
    )
        ensures
            extends(self.ledger(), (#[trigger] self.lower_structs(batch, at, states)).0.ledger()),
            carries_batch(
                batch,
                self.catalog(),
                self.lower_structs(batch, at, states).0.catalog(),
            ),
        decreases batch.len() - at,
    {
        broadcast use {
            lemma_extends_same, lemma_extends_trans, lemma_carries_same, lemma_carries_trans,
            Names::lemma_lower_struct_grows,
        };

        if at < batch.len() {
            match self.lower_struct(batch, at as usize, states, batch.len()) {
                (names, states, Ok(_)) => {
                    names.lemma_lower_structs_grows(batch, at + 1, states);
                },
                _ => {},
            }
        }
        reveal(carries);
    }

    pub(crate) broadcast proof fn lemma_concrete_args_grows(
        self,
        implementation: Impl<'hir>,
        interface: InterfaceSignature<'hir>,
        receiver: Type,
    )
        ensures
            extends(
                self.ledger(),
                (#[trigger] self.concrete_args(implementation, interface, receiver)).0.ledger(),
            ),
            carries(
                self.catalog(),
                self.concrete_args(implementation, interface, receiver).0.catalog(),
            ),
    {
        broadcast use {
            lemma_extends_same, lemma_extends_trans, lemma_carries_same, lemma_carries_trans,
            Names::lemma_resolve_types_grows,
        };
    }

    pub(crate) broadcast proof fn lemma_validate_impl_grows(self, implementation: Impl<'hir>)
        ensures
            extends(self.ledger(), (#[trigger] self.validate_impl(implementation)).0.ledger()),
            carries(self.catalog(), self.validate_impl(implementation).0.catalog()),
    {
        broadcast use {
            lemma_extends_same, lemma_extends_trans, lemma_carries_same, lemma_carries_trans,
            Names::lemma_concrete_args_grows, Names::lemma_insert_grows,
        };
    }

    pub(crate) broadcast proof fn lemma_validate_impls_grows(
        self,
        impls: Seq<&'hir Impl<'hir>>,
        at: nat,
    )
        ensures
            extends(self.ledger(), (#[trigger] self.validate_impls(impls, at)).0.ledger()),
            carries(self.catalog(), self.validate_impls(impls, at).0.catalog()),
        decreases impls.len() - at,
    {
        broadcast use {
            lemma_extends_same, lemma_extends_trans, lemma_carries_same, lemma_carries_trans,
            Names::lemma_validate_impl_grows,
        };

        if at < impls.len() {
            match self.validate_impl(*impls[at as int]) {
                (names, Ok(_)) => {
                    names.lemma_validate_impls_grows(impls, at + 1);
                },
                _ => {},
            }
        }
    }

    pub(crate) broadcast proof fn lemma_validate_supers_grows(
        self,
        interface: Interface<'hir>,
        at: nat,
    )
        ensures
            extends(self.ledger(), (#[trigger] self.validate_supers(interface, at)).0.ledger()),
            carries(self.catalog(), self.validate_supers(interface, at).0.catalog()),
        decreases interface.superinterfaces@.len() - at,
    {
        broadcast use {
            lemma_extends_same, lemma_extends_trans, lemma_carries_same, lemma_carries_trans,
            Names::lemma_insert_grows,
        };

        if at < interface.superinterfaces@.len() {
            let name = interface.superinterfaces@[at as int];
            let (names, symbol) = self.insert(name@);
            if names.interfaces.contains_key(symbol.0) {
                names.lemma_validate_supers_grows(interface, at + 1);
            }
        }
    }

    pub(crate) broadcast proof fn lemma_validate_hierarchy_grows(
        self,
        interfaces: Seq<&'hir Interface<'hir>>,
        at: nat,
    )
        ensures
            extends(self.ledger(), (#[trigger] self.validate_hierarchy(interfaces, at)).0.ledger()),
            carries(self.catalog(), self.validate_hierarchy(interfaces, at).0.catalog()),
        decreases interfaces.len() - at,
    {
        broadcast use {
            lemma_extends_same, lemma_extends_trans, lemma_carries_same, lemma_carries_trans,
            Names::lemma_validate_supers_grows,
        };

        if at < interfaces.len() {
            match self.validate_supers(*interfaces[at as int], 0) {
                (names, Ok(_)) => {
                    names.lemma_validate_hierarchy_grows(interfaces, at + 1);
                },
                _ => {},
            }
        }
    }

    pub(crate) broadcast proof fn lemma_validate_grows(self, items: Items<'hir>)
        ensures
            extends(self.ledger(), (#[trigger] self.validate(items)).0.ledger()),
            carries(self.catalog(), self.validate(items).0.catalog()),
    {
        broadcast use {
            lemma_extends_same, lemma_extends_trans, lemma_carries_same, lemma_carries_trans,
            Names::lemma_validate_hierarchy_grows, Names::lemma_validate_impls_grows,
        };
    }
}

} // verus!
