//! Item collection: extends the namespace with a module's declarations before any body is
//! lowered.

use crate::arena::slice_of;
use crate::ast;
use crate::ast::{GenericBound, Spanned};
use crate::hir::declarations::{Declarations, Items};
use crate::hir::error::{seen, HirError, HirErrorKind};
use crate::hir::scope::{
    resolve_primitive_type, resolve_primitive_type_spec, FunctionSignature,
    InterfaceMethodSignature, InterfaceSignature, Names, Outcome, Scope,
};
use crate::hir::symbols::{join, qualified, SymbolId};
use crate::hir::table::{get, lookup, member_key, nested_key};
use crate::hir::tree::{EnumVariant, FunctionKind, Intrinsic, Method};
use crate::hir::type_resolver::{
    contains_symbol, enum_repr, generic_param_env, intrinsic_method, intrinsic_method_spec,
    is_generic_impl, is_generic_impl_spec, param_env, resolve_enum_repr, seen_list, ResolveCtx,
    MAX_DEPTH,
};
use crate::hir::types::{EnumId, Type, TypeKind};
use crate::text::text_eq;
use vstd::prelude::*;

verus! {

broadcast use vstd::std_specs::hash::group_hash_axioms;

impl Intrinsic {
    /// The intrinsic behind a function of the standard library.
    pub open spec fn named(name: Seq<char>) -> Option<Intrinsic> {
        if name == "println"@ {
            Some(Intrinsic::PrintLn)
        } else if name == "print"@ {
            Some(Intrinsic::Print)
        } else if name == "syscall"@ {
            Some(Intrinsic::Syscall)
        } else if name == "len"@ {
            Some(Intrinsic::Len)
        } else {
            None
        }
    }

    pub fn from_name(name: &str) -> (intrinsic: Option<Intrinsic>)
        ensures
            intrinsic == Intrinsic::named(name@),
    {
        if text_eq(name, "println") {
            Some(Intrinsic::PrintLn)
        } else if text_eq(name, "print") {
            Some(Intrinsic::Print)
        } else if text_eq(name, "syscall") {
            Some(Intrinsic::Syscall)
        } else if text_eq(name, "len") {
            Some(Intrinsic::Len)
        } else {
            None
        }
    }
}

/// Whether one of the structs has the given name.
pub open spec fn declares_struct<'hir>(
    structs: Seq<&'hir ast::Struct<'hir>>,
    name: Seq<char>,
) -> bool {
    exists|i: int| 0 <= i < structs.len() && (#[trigger] structs[i]).name@ == name
}

fn has_struct<'hir>(structs: &Vec<&'hir ast::Struct<'hir>>, name: &str) -> (declared: bool)
    ensures
        declared == declares_struct(structs@, name@),
{
    let mut i: usize = 0;
    while i < structs.len()
        invariant
            i <= structs@.len(),
            forall|j: int| 0 <= j < i ==> (#[trigger] structs@[j]).name@ != name@,
        decreases structs@.len() - i,
    {
        if text_eq(structs[i].name, name) {
            return true;
        }
        i += 1;
    }
    false
}

/// Whether one of the enums has the given name.
pub open spec fn declares_enum<'hir>(enums: Seq<&'hir ast::Enum<'hir>>, name: Seq<char>) -> bool {
    exists|i: int| 0 <= i < enums.len() && (#[trigger] enums[i]).name@ == name
}

fn has_enum<'hir>(enums: &Vec<&'hir ast::Enum<'hir>>, name: &str) -> (declared: bool)
    ensures
        declared == declares_enum(enums@, name@),
{
    let mut i: usize = 0;
    while i < enums.len()
        invariant
            i <= enums@.len(),
            forall|j: int| 0 <= j < i ==> (#[trigger] enums@[j]).name@ != name@,
        decreases enums@.len() - i,
    {
        if text_eq(enums[i].name, name) {
            return true;
        }
        i += 1;
    }
    false
}

/// The types generic interface parameters stand for in an implementation: the explicit
/// arguments, and the receiver for the rest.
pub open spec fn interface_env<'hir>(
    generics: Seq<GenericBound<'hir>>,
    args: Seq<Type>,
    receiver: Type,
) -> Seq<(&'hir str, Type)> {
    Seq::new(
        generics.len(),
        |i: int|
            (
                generics[i].name,
                if i < args.len() {
                    args[i]
                } else {
                    receiver
                },
            ),
    )
}

fn build_interface_env<'hir>(
    generics: &'hir Vec<GenericBound<'hir>>,
    args: &Vec<Type>,
    receiver: Type,
) -> (env: Vec<(&'hir str, Type)>)
    ensures
        env@ == interface_env(generics@, args@, receiver),
{
    let mut env: Vec<(&'hir str, Type)> = Vec::new();
    let mut i: usize = 0;
    while i < generics.len()
        invariant
            i <= generics@.len(),
            env@ =~= interface_env(generics@, args@, receiver).take(i as int),
        decreases generics@.len() - i,
    {
        let typ = if i < args.len() {
            args[i]
        } else {
            receiver
        };
        env.push((generics[i].name, typ));
        i += 1;
    }
    assert(env@ =~= interface_env(generics@, args@, receiver));
    env
}

impl<'hir> Names<'hir> {
    /// The variants of an enum from position `at` on.
    pub open spec fn enum_variants_of(
        self,
        variants: Seq<ast::EnumVariant<'hir>>,
        at: nat,
        owner: SymbolId,
        id: EnumId,
        next_value: i64,
        declared: Seq<SymbolId>,
        lowered: Seq<EnumVariant>,
    ) -> (Names<'hir>, Outcome<Seq<EnumVariant>>)
        decreases variants.len() - at,
    {
        if at >= variants.len() {
            (self, Ok(lowered))
        } else {
            let variant = variants[at as int];
            let (names, symbol) = self.insert(variant.name@);
            if declared.contains(symbol) {
                let duplicate = HirError::new(
                    HirErrorKind::DuplicateVariant { name: variant.name@ },
                    variant.span,
                );
                match names.soft(duplicate) {
                    (names, Err(error)) => (names, Err(error)),
                    (names, Ok(_)) => names.enum_variants_of(
                        variants,
                        at + 1,
                        owner,
                        id,
                        next_value,
                        declared,
                        lowered,
                    ),
                }
            } else {
                let value = match variant.value {
                    Some(value) => value,
                    None => next_value,
                };
                let (names, payload) = match variant.payload {
                    None => (names, Ok(None)),
                    Some(typ) => match names.resolve_or_poison(
                        typ,
                        ResolveCtx::items_spec(None, seq![]),
                        MAX_DEPTH as nat,
                    ) {
                        (names, Err(error)) => (names, Err(error)),
                        (names, Ok(typ)) => (names, Ok(Some(typ))),
                    },
                };
                match payload {
                    Err(error) => (names, Err(error)),
                    Ok(payload) => {
                        let names = Names {
                            enum_variants: names.enum_variants.insert(
                                nested_key(owner, symbol),
                                (id, value),
                            ),
                            ..names
                        };
                        names.enum_variants_of(
                            variants,
                            at + 1,
                            owner,
                            id,
                            value.wrapping_add(1),
                            declared.push(symbol),
                            lowered.push(EnumVariant { name: symbol, value, payload }),
                        )
                    },
                }
            }
        }
    }

    /// Adds one enum.
    pub open spec fn extend_enum(
        self,
        declaration: &'hir ast::Enum<'hir>,
        structs: Seq<&'hir ast::Struct<'hir>>,
    ) -> (Names<'hir>, Outcome<()>) {
        let (names, symbol) = self.insert(declaration.name@);
        if names.is_nominal(symbol) || names.generic_enums.contains_key(symbol.0)
            || declares_struct(structs, declaration.name@) {
            names.soft(
                HirError::new(
                    HirErrorKind::DuplicateEnum { name: declaration.name@ },
                    declaration.span,
                ),
            )
        } else if declaration.generics@.len() > 0 {
            (
                Names {
                    generic_enums: names.generic_enums.insert(symbol.0, declaration),
                    ..names
                },
                Ok(()),
            )
        } else {
            match enum_repr(declaration.repr, declaration.variants@) {
                Err(error) => names.soft(error),
                Ok(repr) => {
                    let (declared, id) = names.declare_enum(
                        symbol,
                        repr,
                        declaration.span,
                        seq![],
                    );
                    match declared.enum_variants_of(
                        declaration.variants@,
                        0,
                        symbol,
                        id,
                        0,
                        seq![],
                        seq![],
                    ) {
                        (after, Err(error)) => (after, Err(error)),
                        (after, Ok(variants)) => (
                            after.set_variants(names.enums.len() as int, variants),
                            Ok(()),
                        ),
                    }
                },
            }
        }
    }

    /// Adds the enums of a module from position `at` on.
    pub open spec fn extend_enums(self, items: Items<'hir>, at: nat) -> (Names<'hir>, Outcome<()>)
        decreases items.enums.len() - at,
    {
        if at >= items.enums.len() {
            (self, Ok(()))
        } else {
            match self.extend_enum(items.enums[at as int], items.structs) {
                (names, Err(error)) => (names, Err(error)),
                (names, Ok(_)) => names.extend_enums(items, at + 1),
            }
        }
    }

    /// Interns a list of names from position `at` on.
    pub open spec fn insert_all(self, words: Seq<&'hir str>, at: nat, symbols: Seq<SymbolId>) -> (
        Names<'hir>,
        Seq<SymbolId>,
    )
        decreases words.len() - at,
    {
        if at >= words.len() {
            (self, symbols)
        } else {
            let (names, symbol) = self.insert(words[at as int]@);
            names.insert_all(words, at + 1, symbols.push(symbol))
        }
    }

    /// The methods of an interface from position `at` on.
    pub open spec fn interface_methods(
        self,
        methods: Seq<ast::InterfaceMethod<'hir>>,
        at: nat,
        ctx: ResolveCtx<'hir>,
        lowered: Seq<InterfaceMethodSignature<'hir>>,
    ) -> (Names<'hir>, Outcome<Seq<InterfaceMethodSignature<'hir>>>)
        decreases methods.len() - at,
    {
        if at >= methods.len() {
            (self, Ok(lowered))
        } else {
            let method = methods[at as int];
            let (names, symbol) = self.insert(method.name@);
            match names.resolve_params(method.params@, 0, seq![], ctx, MAX_DEPTH as nat) {
                (names, Err(error)) => (names, Err(error)),
                (names, Ok(params)) => match names.resolve_return_type(
                    method.return_type,
                    ctx,
                    MAX_DEPTH as nat,
                ) {
                    (names, Err(error)) => (names, Err(error)),
                    (names, Ok(return_type)) => names.interface_methods(
                        methods,
                        at + 1,
                        ctx,
                        lowered.push(
                            InterfaceMethodSignature {
                                name: symbol,
                                params: slice_of(params),
                                return_type,
                                has_receiver: method.receiver is Some,
                                receiver_mut: match method.receiver {
                                    Some(receiver) => receiver.mutable,
                                    None => false,
                                },
                            },
                        ),
                    ),
                },
            }
        }
    }

    /// Adds one interface.
    pub open spec fn extend_interface(self, interface: ast::Interface<'hir>) -> (
        Names<'hir>,
        Outcome<()>,
    ) {
        let (names, name) = self.insert(interface.name@);
        if names.interfaces.contains_key(name.0) {
            names.soft(
                HirError::new(
                    HirErrorKind::DuplicateInterface { name: interface.name@ },
                    interface.span,
                ),
            )
        } else {
            let (names, superinterfaces) = names.insert_all(
                interface.superinterfaces@,
                0,
                seq![],
            );
            let (names, generic_params) = names.insert_generics(interface.generics@, 0, seq![]);
            let ctx = ResolveCtx::items_spec(None, param_env(interface.generics@));
            match names.interface_methods(interface.methods@, 0, ctx, seq![]) {
                (names, Err(error)) => (names, Err(error)),
                (names, Ok(methods)) => (
                    Names {
                        interfaces: names.interfaces.insert(
                            name.0,
                            InterfaceSignature {
                                name,
                                superinterfaces: slice_of(superinterfaces),
                                methods: slice_of(methods),
                                generic_params: slice_of(generic_params),
                                generics: interface.generics,
                            },
                        ),
                        ..names
                    },
                    Ok(()),
                ),
            }
        }
    }

    /// Adds the interfaces of a module from position `at` on.
    pub open spec fn extend_interfaces(self, interfaces: Seq<&'hir ast::Interface<'hir>>, at: nat) -> (
        Names<'hir>,
        Outcome<()>,
    )
        decreases interfaces.len() - at,
    {
        if at >= interfaces.len() {
            (self, Ok(()))
        } else {
            match self.extend_interface(*interfaces[at as int]) {
                (names, Err(error)) => (names, Err(error)),
                (names, Ok(_)) => names.extend_interfaces(interfaces, at + 1),
            }
        }
    }

    /// Registers the generic `impl` blocks of a module from position `at` on.
    pub open spec fn register_impls(self, impls: Seq<&'hir ast::Impl<'hir>>, at: nat) -> Names<'hir>
        decreases impls.len() - at,
    {
        if at >= impls.len() {
            self
        } else {
            let names = if is_generic_impl_spec(*impls[at as int]) {
                Names { generic_impls: self.generic_impls.push(impls[at as int]), ..self }
            } else {
                self
            };
            names.register_impls(impls, at + 1)
        }
    }

    /// Adds the signature of one free function. A generic one becomes a template.
    pub open spec fn extend_function(self, function: &'hir ast::Function<'hir>) -> (
        Names<'hir>,
        Outcome<()>,
    ) {
        if function.receiver is Some {
            self.soft(HirError::new(HirErrorKind::ReceiverOutsideImpl, function.span))
        } else {
            let (names, symbol) = self.insert(self.item(function.name@));
            if names.functions.contains_key(symbol.0) {
                names.soft(
                    HirError::new(
                        HirErrorKind::DuplicateFunction { name: function.name@ },
                        function.span,
                    ),
                )
            } else {
                let ctx = ResolveCtx::items_spec(None, param_env(function.generics@));
                match names.resolve_params(
                    function.params@,
                    0,
                    seq![],
                    ctx,
                    MAX_DEPTH as nat,
                ) {
                    (names, Err(error)) => (names, Err(error)),
                    (names, Ok(params)) => match names.resolve_return_type(
                        function.return_type,
                        ctx,
                        MAX_DEPTH as nat,
                    ) {
                        (names, Err(error)) => (names, Err(error)),
                        (names, Ok(return_type)) => (
                            names.add_function(function, symbol, params, return_type),
                            Ok(()),
                        ),
                    },
                }
            }
        }
    }

    /// Adds a free function with a resolved signature.
    pub open spec fn add_function(
        self,
        function: &'hir ast::Function<'hir>,
        symbol: SymbolId,
        params: Seq<Type>,
        return_type: Type,
    ) -> Names<'hir> {
        let generic = function.generics@.len() > 0;
        let intrinsic = if self.in_std && !generic {
            Intrinsic::named(function.name@)
        } else {
            None
        };
        let (names, id) = self.push_signature(
            FunctionSignature {
                name: symbol,
                params: slice_of(params),
                return_type,
                kind: match intrinsic {
                    Some(intrinsic) => FunctionKind::Intrinsic(intrinsic),
                    None => FunctionKind::Free,
                },
                is_const: function.is_const,
            },
        );
        let names = Names { functions: names.functions.insert(symbol.0, id), ..names };
        if generic {
            Names { generic_fns: names.generic_fns.insert(id.0, function), ..names }
        } else {
            names
        }
    }

    /// Adds the signatures of free functions from position `at` on.
    pub open spec fn extend_functions(self, functions: Seq<&'hir ast::Function<'hir>>, at: nat) -> (
        Names<'hir>,
        Outcome<()>,
    )
        decreases functions.len() - at,
    {
        if at >= functions.len() {
            (self, Ok(()))
        } else {
            match self.extend_function(functions[at as int]) {
                (names, Err(error)) => (names, Err(error)),
                (names, Ok(_)) => names.extend_functions(functions, at + 1),
            }
        }
    }

    /// Inside the standard library, `syscall` exists without being declared.
    pub open spec fn extend_syscall(self) -> Names<'hir> {
        if !self.in_std {
            self
        } else {
            let (names, symbol) = self.insert(self.item("syscall"@));
            if names.functions.contains_key(symbol.0) {
                names
            } else {
                let (names, id) = names.push_signature(
                    FunctionSignature {
                        name: symbol,
                        params: slice_of(seq![]),
                        return_type: Type::new(TypeKind::Iptr),
                        kind: FunctionKind::Intrinsic(Intrinsic::Syscall),
                        is_const: false,
                    },
                );
                Names { functions: names.functions.insert(symbol.0, id), ..names }
            }
        }
    }

    /// The type an `impl` block attaches to. Only types of the same module may be extended, and
    /// primitives only by the standard library.
    pub open spec fn impl_receiver_type(
        self,
        implementation: ast::Impl<'hir>,
        items: Items<'hir>,
    ) -> (Names<'hir>, Outcome<Type>) {
        let orphan = HirError::new(
            HirErrorKind::OrphanImpl { name: implementation.name@ },
            implementation.span,
        );
        match resolve_primitive_type_spec(implementation.name@) {
            Some(primitive) => (
                self,
                if self.in_std {
                    Ok(primitive)
                } else {
                    Err(orphan)
                },
            ),
            None => {
                let (names, symbol) = self.insert(implementation.name@);
                let local = declares_struct(items.structs, implementation.name@)
                    || declares_enum(items.enums, implementation.name@);
                (
                    names,
                    match names.nominal_type(symbol) {
                        Some(typ) => if local {
                            Ok(typ)
                        } else {
                            Err(orphan)
                        },
                        None => Err(
                            HirError::new(
                                HirErrorKind::UnknownType { name: implementation.name@ },
                                implementation.span,
                            ),
                        ),
                    },
                )
            },
        }
    }

    /// The explicit arguments of a generic interface.
    pub open spec fn interface_args(
        self,
        args: Seq<Spanned<ast::Type<'hir>>>,
        at: nat,
        ctx: ResolveCtx<'hir>,
        resolved: Seq<Type>,
    ) -> (Names<'hir>, Outcome<Seq<Type>>)
        decreases args.len() - at,
    {
        if at >= args.len() {
            (self, Ok(resolved))
        } else {
            match self.resolve_or_poison(args[at as int], ctx, MAX_DEPTH as nat) {
                (names, Err(error)) => (names, Err(error)),
                (names, Ok(typ)) => names.interface_args(
                    args,
                    at + 1,
                    ctx,
                    resolved.push(typ),
                ),
            }
        }
    }

    /// Records that the receiver implements an interface, and what the interface's parameters
    /// stand for.
    pub open spec fn impl_param_env(self, implementation: ast::Impl<'hir>, receiver: Type) -> (
        Names<'hir>,
        Outcome<Seq<(&'hir str, Type)>>,
    ) {
        match implementation.interface {
            None => (self, Ok(seq![])),
            Some(interface) => {
                let (names, symbol) = self.insert(interface@);
                let names = names.add_impl(receiver, symbol);
                match lookup(names.interfaces, symbol.0) {
                    None => (names, Ok(seq![])),
                    Some(interface) => if interface.generic_params@.len() == 0 {
                        (names, Ok(seq![]))
                    } else {
                        let args = match implementation.interface_type {
                            Some(typ) => match typ.value {
                                ast::Type::Generic(_, args) => args@,
                                _ => seq![],
                            },
                            None => seq![],
                        };
                        match names.interface_args(
                            args,
                            0,
                            ResolveCtx::items_spec(Some(receiver), seq![]),
                            seq![],
                        ) {
                            (names, Err(error)) => (names, Err(error)),
                            (names, Ok(args)) => (
                                names,
                                Ok(interface_env(interface.generics@, args, receiver)),
                            ),
                        }
                    },
                }
            },
        }
    }

    /// Adds the signature of one method. Its id is that of its own signature, which comes after
    /// those of the instances that its types ask for.
    pub open spec fn extend_method(
        self,
        implementation: ast::Impl<'hir>,
        method: ast::Function<'hir>,
        receiver: Type,
        ctx: ResolveCtx<'hir>,
    ) -> (Names<'hir>, Outcome<()>) {
        let (names, method_symbol) = self.insert(method.name@);
        let (names, mangled) = names.insert(
            names.method_name(implementation.name@, implementation.interface, method.name@),
        );
        let taken = match method.receiver {
            Some(_) => names.methods.contains_key(member_key(receiver, method_symbol)),
            None => names.functions.contains_key(mangled.0),
        };
        if taken {
            names.soft(
                HirError::new(
                    match method.receiver {
                        Some(_) => HirErrorKind::DuplicateMethod {
                            struct_name: implementation.name@,
                            name: method.name@,
                        },
                        None => HirErrorKind::DuplicateFunction {
                            name: join(implementation.name@, method.name@),
                        },
                    },
                    method.span,
                ),
            )
        } else {
            let first = match method.receiver {
                Some(r) => seq![Type::receiver_ref(receiver, r.mutable)],
                None => seq![],
            };
            match names.resolve_params(method.params@, 0, first, ctx, MAX_DEPTH as nat) {
                (names, Err(error)) => (names, Err(error)),
                (names, Ok(params)) => match names.resolve_return_type(
                    method.return_type,
                    ctx,
                    MAX_DEPTH as nat,
                ) {
                    (names, Err(error)) => (names, Err(error)),
                    (names, Ok(return_type)) => {
                        let kind = match method.receiver {
                            None => FunctionKind::Free,
                            Some(r) => match intrinsic_method_spec(
                                names.in_std,
                                implementation.name@,
                                method.name@,
                            ) {
                                Some(intrinsic) => FunctionKind::Intrinsic(intrinsic),
                                None => FunctionKind::Method(
                                    Method { receiver, name: method_symbol, mutable: r.mutable },
                                ),
                            },
                        };
                        let (names, id) = names.push_signature(
                            FunctionSignature {
                                name: mangled,
                                params: slice_of(params),
                                return_type,
                                kind,
                                is_const: method.is_const,
                            },
                        );
                        (
                            match method.receiver {
                                Some(_) => Names {
                                    methods: names.methods.insert(
                                        member_key(receiver, method_symbol),
                                        id,
                                    ),
                                    ..names
                                },
                                None => Names {
                                    functions: names.functions.insert(mangled.0, id),
                                    ..names
                                },
                            },
                            Ok(()),
                        )
                    },
                },
            }
        }
    }

    /// Adds the signatures of the methods of one `impl` block from position `at` on.
    pub open spec fn extend_methods(
        self,
        implementation: ast::Impl<'hir>,
        at: nat,
        receiver: Type,
        ctx: ResolveCtx<'hir>,
    ) -> (Names<'hir>, Outcome<()>)
        decreases implementation.methods@.len() - at,
    {
        if at >= implementation.methods@.len() {
            (self, Ok(()))
        } else {
            match self.extend_method(
                implementation,
                *implementation.methods@[at as int],
                receiver,
                ctx,
            ) {
                (names, Err(error)) => (names, Err(error)),
                (names, Ok(_)) => names.extend_methods(implementation, at + 1, receiver, ctx),
            }
        }
    }

    /// Adds the signatures of one `impl` block. A generic one waits for its instances.
    pub open spec fn extend_impl(self, implementation: ast::Impl<'hir>, items: Items<'hir>) -> (
        Names<'hir>,
        Outcome<()>,
    ) {
        if is_generic_impl_spec(implementation) {
            (self, Ok(()))
        } else {
            match self.impl_receiver_type(implementation, items) {
                (names, Err(error)) => names.soft(error),
                (names, Ok(receiver)) => match names.impl_param_env(implementation, receiver) {
                    (names, Err(error)) => (names, Err(error)),
                    (names, Ok(env)) => names.extend_methods(
                        implementation,
                        0,
                        receiver,
                        ResolveCtx::items_spec(Some(receiver), env),
                    ),
                },
            }
        }
    }

    /// Adds the signatures of all `impl` blocks from position `at` on.
    pub open spec fn extend_impl_signatures(self, items: Items<'hir>, at: nat) -> (
        Names<'hir>,
        Outcome<()>,
    )
        decreases items.impls.len() - at,
    {
        if at >= items.impls.len() {
            (self, Ok(()))
        } else {
            match self.extend_impl(*items.impls[at as int], items) {
                (names, Err(error)) => (names, Err(error)),
                (names, Ok(_)) => names.extend_impl_signatures(items, at + 1),
            }
        }
    }

    /// Adds the signatures of a module.
    pub open spec fn extend_signatures(self, items: Items<'hir>) -> (Names<'hir>, Outcome<()>) {
        match self.register_impls(items.impls, 0).extend_functions(items.functions, 0) {
            (names, Err(error)) => (names, Err(error)),
            (names, Ok(_)) => names.extend_syscall().extend_impl_signatures(items, 0),
        }
    }

    /// Adds the structs and enums of a module. Names come first, so that types may refer to
    /// each other in any order.
    pub open spec fn extend_types(self, items: Items<'hir>) -> (Names<'hir>, Outcome<()>) {
        match self.declare_structs(items.structs, 0, seq![]) {
            (names, Err(error)) => (names, Err(error)),
            (names, Ok(batch)) => match names.extend_enums(items, 0) {
                (names, Err(error)) => (names, Err(error)),
                (names, Ok(_)) => names.lower_structs(
                    batch,
                    0,
                    Names::<'hir>::unvisited(batch.len()),
                ),
            },
        }
    }
}

impl<'hir> Scope<'hir> {
    fn enum_variants_of(
        &mut self,
        variants: &'hir Vec<ast::EnumVariant<'hir>>,
        owner: SymbolId,
        id: EnumId,
    ) -> (outcome: Result<Vec<EnumVariant>, HirError<&'hir str>>)
        ensures
            (final(self)@, seen_list(outcome)) == old(self)@.enum_variants_of(
                variants@,
                0,
                owner,
                id,
                0,
                seq![],
                seq![],
            ),
    {
        let mut declared: Vec<SymbolId> = Vec::new();
        let mut lowered: Vec<EnumVariant> = Vec::new();
        let mut next_value: i64 = 0;
        let no_env: Vec<(&'hir str, Type)> = Vec::new();
        let ctx = ResolveCtx::items(self.arena, None, &no_env);
        assert(no_env@ =~= seq![]);
        let mut i: usize = 0;
        while i < variants.len()
            invariant
                i <= variants@.len(),
                ctx == ResolveCtx::<'hir>::items_spec(None, seq![]),
                old(self)@.enum_variants_of(variants@, 0, owner, id, 0, seq![], seq![])
                    == self@.enum_variants_of(
                    variants@,
                    i as nat,
                    owner,
                    id,
                    next_value,
                    declared@,
                    lowered@,
                ),
            decreases variants@.len() - i,
        {
            let variant = variants[i];
            let symbol = self.insert(variant.name);
            if contains_symbol(&declared, symbol) {
                let duplicate = HirError::new(
                    HirErrorKind::DuplicateVariant { name: variant.name },
                    variant.span,
                );
                if let Err(error) = self.soft(duplicate) {
                    return Err(error);
                }
            } else {
                let value: i64 = match variant.value {
                    Some(value) => value,
                    None => next_value,
                };
                let payload = match variant.payload {
                    None => None,
                    Some(typ) => match self.resolve_or_poison(&typ, ctx, MAX_DEPTH) {
                        Err(error) => {
                            return Err(error);
                        },
                        Ok(typ) => Some(typ),
                    },
                };
                self.enum_variants.insert(nested_key(owner, symbol), (id, value));
                declared.push(symbol);
                lowered.push(EnumVariant { name: symbol, value, payload });
                next_value = value.wrapping_add(1);
            }
            i += 1;
        }
        Ok(lowered)
    }

    fn extend_enum(
        &mut self,
        declaration: &'hir ast::Enum<'hir>,
        structs: &Vec<&'hir ast::Struct<'hir>>,
    ) -> (outcome: Result<(), HirError<&'hir str>>)
        ensures
            (final(self)@, seen(outcome)) == old(self)@.extend_enum(declaration, structs@),
    {
        let symbol = self.insert(declaration.name);
        if self.is_nominal(symbol) || self.generic_enums.contains_key(&symbol.0) || has_struct(
            structs,
            declaration.name,
        ) {
            return self.soft(
                HirError::new(
                    HirErrorKind::DuplicateEnum { name: declaration.name },
                    declaration.span,
                ),
            );
        }
        if declaration.generics.len() > 0 {
            self.generic_enums.insert(symbol.0, declaration);
            return Ok(());
        }
        let repr = match resolve_enum_repr(&declaration.repr, declaration.variants) {
            Err(error) => return self.soft(error),
            Ok(repr) => repr,
        };
        let index: usize = self.enums.len();
        let no_generics: Vec<SymbolId> = Vec::new();
        assert(no_generics@ =~= seq![]);
        let id = self.declare_enum(symbol, repr, declaration.span, &no_generics);
        match self.enum_variants_of(declaration.variants, symbol, id) {
            Err(error) => Err(error),
            Ok(variants) => {
                self.set_variants(index, &variants);
                Ok(())
            },
        }
    }

    /// Adds the enums of a module.
    pub fn extend_enums(&mut self, declarations: &Declarations<'hir>) -> (outcome: Result<
        (),
        HirError<&'hir str>,
    >)
        ensures
            (final(self)@, seen(outcome)) == old(self)@.extend_enums(declarations@, 0),
    {
        let mut i: usize = 0;
        while i < declarations.enums.len()
            invariant
                i <= declarations.enums@.len(),
                old(self)@.extend_enums(declarations@, 0) == self@.extend_enums(
                    declarations@,
                    i as nat,
                ),
            decreases declarations.enums@.len() - i,
        {
            if let Err(error) = self.extend_enum(declarations.enums[i], &declarations.structs) {
                return Err(error);
            }
            i += 1;
        }
        Ok(())
    }

    fn insert_all(&mut self, words: &'hir Vec<&'hir str>) -> (symbols: Vec<SymbolId>)
        ensures
            (final(self)@, symbols@) == old(self)@.insert_all(words@, 0, seq![]),
    {
        let mut symbols: Vec<SymbolId> = Vec::new();
        let mut i: usize = 0;
        while i < words.len()
            invariant
                i <= words@.len(),
                old(self)@.insert_all(words@, 0, seq![]) == self@.insert_all(
                    words@,
                    i as nat,
                    symbols@,
                ),
            decreases words@.len() - i,
        {
            let symbol = self.insert(words[i]);
            symbols.push(symbol);
            i += 1;
        }
        symbols
    }

    fn insert_generics(&mut self, generics: &'hir Vec<GenericBound<'hir>>) -> (symbols: Vec<SymbolId>)
        ensures
            (final(self)@, symbols@) == old(self)@.insert_generics(generics@, 0, seq![]),
    {
        let mut symbols: Vec<SymbolId> = Vec::new();
        let mut i: usize = 0;
        while i < generics.len()
            invariant
                i <= generics@.len(),
                old(self)@.insert_generics(generics@, 0, seq![]) == self@.insert_generics(
                    generics@,
                    i as int,
                    symbols@,
                ),
            decreases generics@.len() - i,
        {
            let symbol = self.insert(generics[i].name);
            symbols.push(symbol);
            i += 1;
        }
        symbols
    }

    fn interface_methods(
        &mut self,
        methods: &'hir Vec<ast::InterfaceMethod<'hir>>,
        ctx: ResolveCtx<'hir>,
    ) -> (outcome: Result<Vec<InterfaceMethodSignature<'hir>>, HirError<&'hir str>>)
        ensures
            (final(self)@, seen_list(outcome)) == old(self)@.interface_methods(
                methods@,
                0,
                ctx,
                seq![],
            ),
    {
        let mut lowered: Vec<InterfaceMethodSignature<'hir>> = Vec::new();
        let mut i: usize = 0;
        while i < methods.len()
            invariant
                i <= methods@.len(),
                old(self)@.interface_methods(methods@, 0, ctx, seq![]) == self@.interface_methods(
                    methods@,
                    i as nat,
                    ctx,
                    lowered@,
                ),
            decreases methods@.len() - i,
        {
            let method = methods[i];
            let name = self.insert(method.name);
            let no_params: Vec<Type> = Vec::new();
            assert(no_params@ =~= seq![]);
            let params = match self.resolve_params(method.params, no_params, ctx, MAX_DEPTH) {
                Err(error) => {
                    return Err(error);
                },
                Ok(params) => params,
            };
            let return_type = match self.resolve_return_type(&method.return_type, ctx, MAX_DEPTH) {
                Err(error) => {
                    return Err(error);
                },
                Ok(return_type) => return_type,
            };
            let params = self.arena.place_slice(&params);
            lowered.push(
                InterfaceMethodSignature {
                    name,
                    params,
                    return_type,
                    has_receiver: method.receiver.is_some(),
                    receiver_mut: match method.receiver {
                        Some(receiver) => receiver.mutable,
                        None => false,
                    },
                },
            );
            i += 1;
        }
        Ok(lowered)
    }

    fn extend_interface(&mut self, interface: &'hir ast::Interface<'hir>) -> (outcome: Result<
        (),
        HirError<&'hir str>,
    >)
        ensures
            (final(self)@, seen(outcome)) == old(self)@.extend_interface(*interface),
    {
        let name = self.insert(interface.name);
        if self.interfaces.contains_key(&name.0) {
            return self.soft(
                HirError::new(
                    HirErrorKind::DuplicateInterface { name: interface.name },
                    interface.span,
                ),
            );
        }
        let superinterfaces = self.insert_all(interface.superinterfaces);
        let generic_params = self.insert_generics(interface.generics);
        let env = generic_param_env(interface.generics);
        let ctx = ResolveCtx::items(self.arena, None, &env);
        let methods = match self.interface_methods(interface.methods, ctx) {
            Err(error) => return Err(error),
            Ok(methods) => methods,
        };
        let signature = InterfaceSignature {
            name,
            superinterfaces: self.arena.place_slice(&superinterfaces),
            methods: self.arena.place_slice(&methods),
            generic_params: self.arena.place_slice(&generic_params),
            generics: interface.generics,
        };
        self.interfaces.insert(name.0, signature);
        Ok(())
    }

    /// Adds the interfaces of a module.
    pub fn extend_interfaces(&mut self, interfaces: &Vec<&'hir ast::Interface<'hir>>) -> (outcome:
        Result<(), HirError<&'hir str>>)
        ensures
            (final(self)@, seen(outcome)) == old(self)@.extend_interfaces(interfaces@, 0),
    {
        let mut i: usize = 0;
        while i < interfaces.len()
            invariant
                i <= interfaces@.len(),
                old(self)@.extend_interfaces(interfaces@, 0) == self@.extend_interfaces(
                    interfaces@,
                    i as nat,
                ),
            decreases interfaces@.len() - i,
        {
            if let Err(error) = self.extend_interface(interfaces[i]) {
                return Err(error);
            }
            i += 1;
        }
        Ok(())
    }

    fn register_impls(&mut self, impls: &Vec<&'hir ast::Impl<'hir>>)
        ensures
            final(self)@ == old(self)@.register_impls(impls@, 0),
    {
        let mut i: usize = 0;
        while i < impls.len()
            invariant
                i <= impls@.len(),
                old(self)@.register_impls(impls@, 0) == self@.register_impls(impls@, i as nat),
            decreases impls@.len() - i,
        {
            if is_generic_impl(impls[i]) {
                self.generic_impls.push(impls[i]);
            }
            i += 1;
        }
    }

    fn extend_function(&mut self, function: &'hir ast::Function<'hir>) -> (outcome: Result<
        (),
        HirError<&'hir str>,
    >)
        ensures
            (final(self)@, seen(outcome)) == old(self)@.extend_function(function),
    {
        if function.receiver.is_some() {
            return self.soft(HirError::new(HirErrorKind::ReceiverOutsideImpl, function.span));
        }
        let mangled = self.mangler.item(function.name);
        let symbol = self.insert(mangled.as_str());
        if self.functions.contains_key(&symbol.0) {
            return self.soft(
                HirError::new(
                    HirErrorKind::DuplicateFunction { name: function.name },
                    function.span,
                ),
            );
        }
        let env = generic_param_env(function.generics);
        let ctx = ResolveCtx::items(self.arena, None, &env);
        let no_params: Vec<Type> = Vec::new();
        assert(no_params@ =~= seq![]);
        let params = match self.resolve_params(function.params, no_params, ctx, MAX_DEPTH) {
            Err(error) => return Err(error),
            Ok(params) => params,
        };
        let return_type = match self.resolve_return_type(&function.return_type, ctx, MAX_DEPTH) {
            Err(error) => return Err(error),
            Ok(return_type) => return_type,
        };
        self.add_function(function, symbol, &params, return_type);
        Ok(())
    }

    fn add_function(
        &mut self,
        function: &'hir ast::Function<'hir>,
        symbol: SymbolId,
        params: &Vec<Type>,
        return_type: Type,
    )
        ensures
            final(self)@ == old(self)@.add_function(function, symbol, params@, return_type),
    {
        let generic = function.generics.len() > 0;
        let intrinsic = if self.in_std && !generic {
            Intrinsic::from_name(function.name)
        } else {
            None
        };
        let params = self.arena.place_slice(params);
        let id = self.push_signature(
            FunctionSignature {
                name: symbol,
                params,
                return_type,
                kind: match intrinsic {
                    Some(intrinsic) => FunctionKind::Intrinsic(intrinsic),
                    None => FunctionKind::Free,
                },
                is_const: function.is_const,
            },
        );
        self.functions.insert(symbol.0, id);
        if generic {
            self.generic_fns.insert(id.0, function);
        }
    }

    fn extend_functions(&mut self, functions: &Vec<&'hir ast::Function<'hir>>) -> (outcome: Result<
        (),
        HirError<&'hir str>,
    >)
        ensures
            (final(self)@, seen(outcome)) == old(self)@.extend_functions(functions@, 0),
    {
        let mut i: usize = 0;
        while i < functions.len()
            invariant
                i <= functions@.len(),
                old(self)@.extend_functions(functions@, 0) == self@.extend_functions(
                    functions@,
                    i as nat,
                ),
            decreases functions@.len() - i,
        {
            if let Err(error) = self.extend_function(functions[i]) {
                return Err(error);
            }
            i += 1;
        }
        Ok(())
    }

    fn extend_syscall(&mut self)
        ensures
            final(self)@ == old(self)@.extend_syscall(),
    {
        if !self.in_std {
            return;
        }
        let mangled = self.mangler.item("syscall");
        let symbol = self.insert(mangled.as_str());
        if !self.functions.contains_key(&symbol.0) {
            let no_params: Vec<Type> = Vec::new();
            assert(no_params@ =~= seq![]);
            let params = self.arena.place_slice(&no_params);
            let id = self.push_signature(
                FunctionSignature {
                    name: symbol,
                    params,
                    return_type: Type::new(TypeKind::Iptr),
                    kind: FunctionKind::Intrinsic(Intrinsic::Syscall),
                    is_const: false,
                },
            );
            self.functions.insert(symbol.0, id);
        }
    }

    fn impl_receiver_type(
        &mut self,
        implementation: &'hir ast::Impl<'hir>,
        declarations: &Declarations<'hir>,
    ) -> (outcome: Result<Type, HirError<&'hir str>>)
        ensures
            (final(self)@, seen(outcome)) == old(self)@.impl_receiver_type(
                *implementation,
                declarations@,
            ),
    {
        let orphan = HirError::new(
            HirErrorKind::OrphanImpl { name: implementation.name },
            implementation.span,
        );
        if let Some(primitive) = resolve_primitive_type(implementation.name) {
            return if self.in_std {
                Ok(primitive)
            } else {
                Err(orphan)
            };
        }
        let symbol = self.insert(implementation.name);
        let local = has_struct(&declarations.structs, implementation.name) || has_enum(
            &declarations.enums,
            implementation.name,
        );
        match self.nominal_type(symbol) {
            Some(typ) => if local {
                Ok(typ)
            } else {
                Err(orphan)
            },
            None => Err(
                HirError::new(
                    HirErrorKind::UnknownType { name: implementation.name },
                    implementation.span,
                ),
            ),
        }
    }

    fn interface_args(
        &mut self,
        args: &'hir Vec<Spanned<ast::Type<'hir>>>,
        ctx: ResolveCtx<'hir>,
    ) -> (outcome: Result<Vec<Type>, HirError<&'hir str>>)
        ensures
            (final(self)@, seen_list(outcome)) == old(self)@.interface_args(
                args@,
                0,
                ctx,
                seq![],
            ),
    {
        let mut resolved: Vec<Type> = Vec::new();
        let mut i: usize = 0;
        while i < args.len()
            invariant
                i <= args@.len(),
                old(self)@.interface_args(args@, 0, ctx, seq![]) == self@.interface_args(
                    args@,
                    i as nat,
                    ctx,
                    resolved@,
                ),
            decreases args@.len() - i,
        {
            match self.resolve_or_poison(&args[i], ctx, MAX_DEPTH) {
                Err(error) => {
                    return Err(error);
                },
                Ok(typ) => {
                    resolved.push(typ);
                },
            }
            i += 1;
        }
        Ok(resolved)
    }

    fn impl_param_env(&mut self, implementation: &'hir ast::Impl<'hir>, receiver: Type) -> (outcome:
        Result<Vec<(&'hir str, Type)>, HirError<&'hir str>>)
        ensures
            (final(self)@, seen_list(outcome)) == old(self)@.impl_param_env(
                *implementation,
                receiver,
            ),
    {
        let empty: Vec<(&'hir str, Type)> = Vec::new();
        assert(empty@ =~= seq![]);
        let interface = match implementation.interface {
            None => return Ok(empty),
            Some(interface) => interface,
        };
        let symbol = self.insert(interface);
        self.add_impl(receiver, symbol);
        let interface = match get(&self.interfaces, symbol) {
            None => return Ok(empty),
            Some(interface) => interface,
        };
        if interface.generic_params.len() == 0 {
            return Ok(empty);
        }
        let ctx = ResolveCtx::items(self.arena, Some(receiver), &empty);
        let explicit = match implementation.interface_type {
            Some(typ) => match typ.value {
                ast::Type::Generic(_, args) => Some(args),
                _ => None,
            },
            None => None,
        };
        let args = match explicit {
            Some(args) => match self.interface_args(args, ctx) {
                Err(error) => return Err(error),
                Ok(args) => args,
            },
            None => {
                let none: Vec<Type> = Vec::new();
                assert(none@ =~= seq![]);
                none
            },
        };
        Ok(build_interface_env(interface.generics, &args, receiver))
    }

    fn extend_method(
        &mut self,
        implementation: &'hir ast::Impl<'hir>,
        method: &'hir ast::Function<'hir>,
        receiver: Type,
        ctx: ResolveCtx<'hir>,
    ) -> (outcome: Result<(), HirError<&'hir str>>)
        ensures
            (final(self)@, seen(outcome)) == old(self)@.extend_method(
                *implementation,
                *method,
                receiver,
                ctx,
            ),
    {
        let method_symbol = self.insert(method.name);
        let name = self.method_name(implementation.name, implementation.interface, method.name);
        let mangled = self.insert(name.as_str());
        let mut first: Vec<Type> = Vec::new();
        match method.receiver {
            Some(r) => {
                if self.methods.contains_key(&member_key(receiver, method_symbol)) {
                    return self.soft(
                        HirError::new(
                            HirErrorKind::DuplicateMethod {
                                struct_name: implementation.name,
                                name: method.name,
                            },
                            method.span,
                        ),
                    );
                }
                first.push(Type::receiver_ref(receiver, r.mutable));
            },
            None => {
                if self.functions.contains_key(&mangled.0) {
                    let name = qualified(self.arena, implementation.name, method.name);
                    return self.soft(
                        HirError::new(HirErrorKind::DuplicateFunction { name }, method.span),
                    );
                }
            },
        }
        assert(first@ =~= (match method.receiver {
            Some(r) => seq![Type::receiver_ref(receiver, r.mutable)],
            None => seq![],
        }));
        let params = match self.resolve_params(method.params, first, ctx, MAX_DEPTH) {
            Err(error) => return Err(error),
            Ok(params) => params,
        };
        let return_type = match self.resolve_return_type(&method.return_type, ctx, MAX_DEPTH) {
            Err(error) => return Err(error),
            Ok(return_type) => return_type,
        };
        let kind = match method.receiver {
            None => FunctionKind::Free,
            Some(r) => match intrinsic_method(self.in_std, implementation.name, method.name) {
                Some(intrinsic) => FunctionKind::Intrinsic(intrinsic),
                None => FunctionKind::Method(
                    Method { receiver, name: method_symbol, mutable: r.mutable },
                ),
            },
        };
        let params = self.arena.place_slice(&params);
        let id = self.push_signature(
            FunctionSignature {
                name: mangled,
                params,
                return_type,
                kind,
                is_const: method.is_const,
            },
        );
        if method.receiver.is_some() {
            self.methods.insert(member_key(receiver, method_symbol), id);
        } else {
            self.functions.insert(mangled.0, id);
        }
        Ok(())
    }

    fn extend_methods(
        &mut self,
        implementation: &'hir ast::Impl<'hir>,
        receiver: Type,
        ctx: ResolveCtx<'hir>,
    ) -> (outcome: Result<(), HirError<&'hir str>>)
        ensures
            (final(self)@, seen(outcome)) == old(self)@.extend_methods(
                *implementation,
                0,
                receiver,
                ctx,
            ),
    {
        let methods = implementation.methods;
        let mut i: usize = 0;
        while i < methods.len()
            invariant
                i <= methods@.len(),
                methods == implementation.methods,
                old(self)@.extend_methods(*implementation, 0, receiver, ctx)
                    == self@.extend_methods(*implementation, i as nat, receiver, ctx),
            decreases methods@.len() - i,
        {
            if let Err(error) = self.extend_method(implementation, methods[i], receiver, ctx) {
                return Err(error);
            }
            i += 1;
        }
        Ok(())
    }

    fn extend_impl(
        &mut self,
        implementation: &'hir ast::Impl<'hir>,
        declarations: &Declarations<'hir>,
    ) -> (outcome: Result<(), HirError<&'hir str>>)
        ensures
            (final(self)@, seen(outcome)) == old(self)@.extend_impl(*implementation, declarations@),
    {
        if is_generic_impl(implementation) {
            return Ok(());
        }
        let receiver = match self.impl_receiver_type(implementation, declarations) {
            Err(error) => return self.soft(error),
            Ok(receiver) => receiver,
        };
        let env = match self.impl_param_env(implementation, receiver) {
            Err(error) => return Err(error),
            Ok(env) => env,
        };
        let ctx = ResolveCtx::items(self.arena, Some(receiver), &env);
        self.extend_methods(implementation, receiver, ctx)
    }

    /// Adds the signatures of all `impl` blocks of a module.
    fn extend_impl_signatures(&mut self, declarations: &Declarations<'hir>) -> (outcome: Result<
        (),
        HirError<&'hir str>,
    >)
        ensures
            (final(self)@, seen(outcome)) == old(self)@.extend_impl_signatures(declarations@, 0),
    {
        let mut i: usize = 0;
        while i < declarations.impls.len()
            invariant
                i <= declarations.impls@.len(),
                old(self)@.extend_impl_signatures(declarations@, 0) == self@.extend_impl_signatures(
                    declarations@,
                    i as nat,
                ),
            decreases declarations.impls@.len() - i,
        {
            if let Err(error) = self.extend_impl(declarations.impls[i], declarations) {
                return Err(error);
            }
            i += 1;
        }
        Ok(())
    }

    /// Adds the signatures of a module.
    pub fn extend_signatures(&mut self, declarations: &Declarations<'hir>) -> (outcome: Result<
        (),
        HirError<&'hir str>,
    >)
        ensures
            (final(self)@, seen(outcome)) == old(self)@.extend_signatures(declarations@),
    {
        self.register_impls(&declarations.impls);
        if let Err(error) = self.extend_functions(&declarations.functions) {
            return Err(error);
        }
        self.extend_syscall();
        self.extend_impl_signatures(declarations)
    }

    /// Adds the structs and enums of a module.
    pub fn extend_types(&mut self, declarations: &Declarations<'hir>) -> (outcome: Result<
        (),
        HirError<&'hir str>,
    >)
        ensures
            (final(self)@, seen(outcome)) == old(self)@.extend_types(declarations@),
    {
        let batch = match self.declare_structs(&declarations.structs) {
            Err(error) => return Err(error),
            Ok(batch) => batch,
        };
        if let Err(error) = self.extend_enums(declarations) {
            return Err(error);
        }
        self.lower_structs(&batch)
    }
}

} // verus!
