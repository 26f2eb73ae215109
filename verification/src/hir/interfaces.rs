//! Validation of interface implementations.
//!
//! Once all signatures are known, every `impl T with Interface` must have all required methods
//! with matching signatures, and `T` must implement every superinterface.

use crate::ast;
use crate::ast::{Function, Impl, Interface};
use crate::hir::declarations::{Declarations, Items};
use crate::hir::display::{push_type, type_text};
use crate::hir::error::{seen, HirError, HirErrorKind};
use crate::hir::scope::{InterfaceMethodSignature, InterfaceSignature, Names, Outcome, Scope};
use crate::hir::symbols::SymbolId;
use crate::hir::table::{get, lookup};
use crate::hir::type_resolver::{seen_list, ResolveCtx, MAX_DEPTH};
use crate::hir::types::{RefTarget, RefTargetKind, Type, TypeKind};
use crate::text::{push_text, text_eq};
use vstd::prelude::*;

verus! {

broadcast use vstd::std_specs::hash::group_hash_axioms;

/// The type with `Self` and `&Self` replaced by the concrete receiver type.
#[verifier::allow_in_spec]
pub fn substitute_self(typ: Type, self_type: Type) -> Type
    returns
        (match typ.kind() {
            TypeKind::SelfType => self_type,
            TypeKind::Ref { mutable, to } => if to.kind() is SelfType {
                match RefTarget::from_type(self_type) {
                    Some(to) => Type::refer(to, mutable),
                    None => typ,
                }
            } else {
                typ
            },
            _ => typ,
        }),
{
    match typ.kind() {
        TypeKind::SelfType => self_type,
        TypeKind::Ref { mutable, to } => match to.kind() {
            RefTargetKind::SelfType => match RefTarget::from_type(self_type) {
                Some(to) => Type::refer(to, mutable),
                None => typ,
            },
            _ => typ,
        },
        _ => typ,
    }
}

/// Whether a type is `Self` or refers to it.
pub open spec fn mentions_self(typ: Type) -> bool {
    match typ.kind() {
        TypeKind::SelfType => true,
        TypeKind::Ref { to, .. } => to.kind() is SelfType,
        TypeKind::Slice { element, .. } => element.kind() is SelfType,
        _ => false,
    }
}

/// Once `Self` is replaced by a type that is no reference or slice, none is left, and replacing it
/// again changes nothing. A slice of `Self` is not looked into.
pub proof fn lemma_self_replaced(typ: Type, self_type: Type)
    requires
        self_type.wf(),
        !(self_type.kind() is SelfType),
        !(self_type.kind() is Ref),
        !(self_type.kind() is Slice),
        typ.kind() matches TypeKind::Slice { element, .. } ==> !(element.kind() is SelfType),
    ensures
        !mentions_self(substitute_self(typ, self_type)),
        substitute_self(substitute_self(typ, self_type), self_type) == substitute_self(
            typ,
            self_type,
        ),
{
    self_type.lemma_to_target();
    if let TypeKind::Ref { mutable, to } = typ.kind() {
        if to.kind() is SelfType {
            let target = RefTarget::from_type(self_type)->0;
            Type::lemma_from_target(target);
            Type::lemma_round_trip(TypeKind::Ref { mutable, to: target });
        }
    }
}

/// The concrete arguments, followed by `Self` for every parameter that has none.
pub open spec fn subst_table(concrete: Seq<Type>, arity: nat) -> Seq<Type> {
    Seq::new(
        if concrete.len() < arity {
            arity
        } else {
            concrete.len()
        },
        |i: int|
            if i < concrete.len() {
                concrete[i]
            } else {
                Type::new(TypeKind::SelfType)
            },
    )
}

pub fn build_subst_table(concrete: &Vec<Type>, arity: usize) -> (table: Vec<Type>)
    ensures
        table@ == subst_table(concrete@, arity as nat),
{
    let mut table: Vec<Type> = Vec::new();
    let mut i: usize = 0;
    while i < concrete.len()
        invariant
            i <= concrete@.len(),
            table@ =~= concrete@.take(i as int),
        decreases concrete@.len() - i,
    {
        table.push(concrete[i]);
        i += 1;
    }
    while table.len() < arity
        invariant
            concrete@.len() <= table@.len(),
            table@.len() <= arity || table@.len() == concrete@.len(),
            forall|j: int| 0 <= j < concrete@.len() ==> table@[j] == concrete@[j],
            forall|j: int|
                concrete@.len() <= j < table@.len() ==> table@[j] == Type::new(TypeKind::SelfType),
        decreases arity - table@.len(),
    {
        table.push(Type::new(TypeKind::SelfType));
    }
    assert(table@ =~= subst_table(concrete@, arity as nat));
    table
}

/// The required type as an implementation for `receiver` must have it.
pub open spec fn required_type(typ: Type, table: Seq<Type>, receiver: Type) -> Type {
    substitute_self(typ.subst_spec(table), receiver)
}

/// Whether parameters agree with those an interface requires.
pub open spec fn params_match(
    required: Seq<Type>,
    found: Seq<Type>,
    table: Seq<Type>,
    receiver: Type,
) -> bool {
    &&& required.len() == found.len()
    &&& forall|i: int|
        0 <= i < required.len() ==> required_type(#[trigger] required[i], table, receiver)
            == found[i]
}

fn check_params(required: &[Type], found: &[Type], table: &Vec<Type>, receiver: Type) -> (matched: bool)
    ensures
        matched == params_match(required@, found@, table@, receiver),
{
    if required.len() != found.len() {
        return false;
    }
    let mut i: usize = 0;
    while i < required.len()
        invariant
            i <= required@.len() == found@.len(),
            forall|j: int|
                0 <= j < i ==> required_type(#[trigger] required@[j], table@, receiver)
                    == found@[j],
        decreases required@.len() - i,
    {
        if substitute_self(required[i].subst(table.as_slice()), receiver) != found[i] {
            assert(required_type(required@[i as int], table@, receiver) != found@[i as int]);
            return false;
        }
        i += 1;
    }
    true
}

/// The parameters of a signature as text, each after a comma unless it comes first.
pub open spec fn params_text(params: Seq<Type>, count: int, first: bool) -> Seq<char>
    decreases count,
{
    if count <= 0 {
        seq![]
    } else {
        params_text(params, count - 1, first) + (if first && count == 1 {
            seq![]
        } else {
            ", "@
        }) + type_text(params[count - 1])
    }
}

/// A method signature as text, such as `fn area(&self): i32`.
pub open spec fn signature_text(
    name: Seq<char>,
    has_receiver: bool,
    receiver_mut: bool,
    params: Seq<Type>,
    return_type: Type,
) -> Seq<char> {
    "fn "@ + name + "("@ + (if !has_receiver {
        seq![]
    } else if receiver_mut {
        "&mut self"@
    } else {
        "&self"@
    }) + params_text(params, params.len() as int, !has_receiver) + "): "@ + type_text(return_type)
}

pub fn format_signature(
    name: &str,
    has_receiver: bool,
    receiver_mut: bool,
    params: &[Type],
    return_type: Type,
) -> (text: String)
    ensures
        text@ == signature_text(name@, has_receiver, receiver_mut, params@, return_type),
{
    let mut text = "fn ".to_owned();
    push_text(&mut text, name);
    push_text(&mut text, "(");
    if has_receiver {
        if receiver_mut {
            push_text(&mut text, "&mut self");
        } else {
            push_text(&mut text, "&self");
        }
    }
    let ghost head = text@;
    assert(head =~= "fn "@ + name@ + "("@ + (if !has_receiver {
        seq![]
    } else if receiver_mut {
        "&mut self"@
    } else {
        "&self"@
    }));
    let mut i: usize = 0;
    while i < params.len()
        invariant
            i <= params@.len(),
            text@ =~= head + params_text(params@, i as int, !has_receiver),
        decreases params@.len() - i,
    {
        if has_receiver || i > 0 {
            push_text(&mut text, ", ");
        }
        push_type(&mut text, params[i]);
        i += 1;
    }
    push_text(&mut text, "): ");
    push_type(&mut text, return_type);
    text
}

/// The last of the methods with the given name.
pub open spec fn method_named<'hir>(
    methods: Seq<&'hir Function<'hir>>,
    name: Seq<char>,
    count: int,
) -> Option<&'hir Function<'hir>>
    decreases count,
{
    if count <= 0 || count > methods.len() {
        None
    } else if methods[count - 1].name@ == name {
        Some(methods[count - 1])
    } else {
        method_named(methods, name, count - 1)
    }
}

fn find_method<'hir>(methods: &'hir [&'hir Function<'hir>], name: &str) -> (method: Option<
    &'hir Function<'hir>,
>)
    ensures
        method == method_named(methods@, name@, methods@.len() as int),
{
    let mut i: usize = methods.len();
    while i > 0
        invariant
            i <= methods@.len(),
            method_named(methods@, name@, methods@.len() as int) == method_named(
                methods@,
                name@,
                i as int,
            ),
        decreases i,
    {
        i -= 1;
        if text_eq(methods[i].name, name) {
            return Some(methods[i]);
        }
    }
    None
}

impl<'hir> Names<'hir> {
    /// Whether all superinterfaces from position `at` on are implemented.
    pub open spec fn check_superinterfaces(
        self,
        implementation: Impl<'hir>,
        interface_name: Seq<char>,
        required: Seq<SymbolId>,
        receiver: Type,
        at: nat,
    ) -> Outcome<()>
        decreases required.len() - at,
    {
        if at >= required.len() {
            Ok(())
        } else {
            let symbol = required[at as int];
            if !self.interfaces.contains_key(symbol.0) {
                Err(
                    HirError::new(
                        HirErrorKind::UnknownInterface { name: self.name(symbol) },
                        implementation.span,
                    ),
                )
            } else if !self.interface_impls.contains((receiver, symbol)) {
                Err(
                    HirError::new(
                        HirErrorKind::MissingSuperinterfaceImpl {
                            struct_name: implementation.name@,
                            interface_name,
                            superinterface_name: self.name(symbol),
                        },
                        implementation.span,
                    ),
                )
            } else {
                self.check_superinterfaces(
                    implementation,
                    interface_name,
                    required,
                    receiver,
                    at + 1,
                )
            }
        }
    }

    /// Whether one required method is there with the right signature.
    pub open spec fn check_method(
        self,
        implementation: Impl<'hir>,
        interface_name: Seq<char>,
        required: InterfaceMethodSignature<'hir>,
        table: Seq<Type>,
        receiver: Type,
    ) -> Outcome<()> {
        let name = self.name(required.name);
        match method_named(implementation.methods@, name, implementation.methods@.len() as int) {
            None => Err(
                HirError::new(
                    HirErrorKind::MissingInterfaceMethod {
                        struct_name: implementation.name@,
                        interface_name,
                        method_name: name,
                    },
                    implementation.span,
                ),
            ),
            Some(method) => {
                let missing = HirErrorKind::MissingInterfaceMethod {
                    struct_name: implementation.name@,
                    interface_name,
                    method_name: method.name@,
                };
                match self.function_id(*method, Some(implementation.name@), missing) {
                    Err(error) => Err(error),
                    Ok(id) => match self.signature(id) {
                        None => Err(HirError::new(missing, method.span)),
                        Some(signature) => {
                            let has_receiver = method.receiver is Some;
                            let receiver_mut = signature.receiver_mutable_spec();
                            let matches = has_receiver == required.has_receiver && (
                            !required.has_receiver || required.receiver_mut == receiver_mut)
                                && params_match(
                                required.params@,
                                signature.explicit_params_spec(),
                                table,
                                receiver,
                            ) && required_type(required.return_type, table, receiver)
                                == signature.return_type;
                            if matches {
                                Ok(())
                            } else {
                                Err(
                                    HirError::new(
                                        HirErrorKind::InterfaceSignatureMismatch {
                                            struct_name: implementation.name@,
                                            interface_name,
                                            method_name: name,
                                            expected: signature_text(
                                                name,
                                                required.has_receiver,
                                                required.receiver_mut,
                                                required.params@,
                                                required.return_type,
                                            ),
                                            found: signature_text(
                                                name,
                                                has_receiver,
                                                receiver_mut,
                                                signature.explicit_params_spec(),
                                                signature.return_type,
                                            ),
                                            impl_span: implementation.span,
                                        },
                                        method.span,
                                    ),
                                )
                            }
                        },
                    },
                }
            },
        }
    }

    /// Whether all required methods from position `at` on are there.
    pub open spec fn check_methods(
        self,
        implementation: Impl<'hir>,
        interface_name: Seq<char>,
        required: Seq<InterfaceMethodSignature<'hir>>,
        table: Seq<Type>,
        receiver: Type,
        at: nat,
    ) -> Outcome<()>
        decreases required.len() - at,
    {
        if at >= required.len() {
            Ok(())
        } else {
            match self.check_method(
                implementation,
                interface_name,
                required[at as int],
                table,
                receiver,
            ) {
                Err(error) => Err(error),
                Ok(_) => self.check_methods(
                    implementation,
                    interface_name,
                    required,
                    table,
                    receiver,
                    at + 1,
                ),
            }
        }
    }

    /// The explicit arguments of the interface an `impl` block names.
    pub open spec fn concrete_args(
        self,
        implementation: Impl<'hir>,
        interface: InterfaceSignature<'hir>,
        receiver: Type,
    ) -> (Names<'hir>, Outcome<Seq<Type>>) {
        let args = match implementation.interface_type {
            Some(typ) => match typ.value {
                ast::Type::Generic(_, args) => Some(args),
                _ => None,
            },
            None => None,
        };
        match args {
            Some(args) => if interface.generic_params@.len() > 0 {
                self.resolve_types(
                    args@,
                    0,
                    seq![],
                    ResolveCtx::root_spec().with_self(receiver),
                    MAX_DEPTH as nat,
                )
            } else {
                (self, Ok(seq![]))
            },
            None => (self, Ok(seq![])),
        }
    }

    /// Whether an `impl` block satisfies the interface it names.
    pub open spec fn validate_impl(self, implementation: Impl<'hir>) -> (Names<'hir>, Outcome<()>) {
        match implementation.interface {
            None => (self, Ok(())),
            Some(interface_name) => {
                let (names, symbol) = self.insert(interface_name@);
                match lookup(names.interfaces, symbol.0) {
                    None => (
                        names,
                        Err(
                            HirError::new(
                                HirErrorKind::UnknownInterface { name: interface_name@ },
                                implementation.span,
                            ),
                        ),
                    ),
                    Some(interface) => match names.lookup_named_type(implementation.name@) {
                        None => (names, Ok(())),
                        Some(receiver) => match names.concrete_args(
                            implementation,
                            interface,
                            receiver,
                        ) {
                            (names, Err(error)) => (names, Err(error)),
                            (names, Ok(args)) => (
                                names,
                                match names.check_superinterfaces(
                                    implementation,
                                    interface_name@,
                                    interface.superinterfaces@,
                                    receiver,
                                    0,
                                ) {
                                    Err(error) => Err(error),
                                    Ok(_) => names.check_methods(
                                        implementation,
                                        interface_name@,
                                        interface.methods@,
                                        subst_table(args, interface.generic_params@.len()),
                                        receiver,
                                        0,
                                    ),
                                },
                            ),
                        },
                    },
                }
            },
        }
    }

    /// Validates the `impl` blocks of a module from position `at` on.
    pub open spec fn validate_impls(self, impls: Seq<&'hir Impl<'hir>>, at: nat) -> (
        Names<'hir>,
        Outcome<()>,
    )
        decreases impls.len() - at,
    {
        if at >= impls.len() {
            (self, Ok(()))
        } else {
            match self.validate_impl(*impls[at as int]) {
                (names, Err(error)) => (names, Err(error)),
                (names, Ok(_)) => names.validate_impls(impls, at + 1),
            }
        }
    }

    /// Whether the superinterfaces of one interface from position `at` on exist.
    pub open spec fn validate_supers(self, interface: Interface<'hir>, at: nat) -> (
        Names<'hir>,
        Outcome<()>,
    )
        decreases interface.superinterfaces@.len() - at,
    {
        if at >= interface.superinterfaces@.len() {
            (self, Ok(()))
        } else {
            let name = interface.superinterfaces@[at as int];
            let (names, symbol) = self.insert(name@);
            if names.interfaces.contains_key(symbol.0) {
                names.validate_supers(interface, at + 1)
            } else {
                (
                    names,
                    Err(
                        HirError::new(
                            HirErrorKind::UnknownInterface { name: name@ },
                            interface.span,
                        ),
                    ),
                )
            }
        }
    }

    /// Whether the superinterfaces of all interfaces from position `at` on exist.
    pub open spec fn validate_hierarchy(self, interfaces: Seq<&'hir Interface<'hir>>, at: nat) -> (
        Names<'hir>,
        Outcome<()>,
    )
        decreases interfaces.len() - at,
    {
        if at >= interfaces.len() {
            (self, Ok(()))
        } else {
            match self.validate_supers(*interfaces[at as int], 0) {
                (names, Err(error)) => (names, Err(error)),
                (names, Ok(_)) => names.validate_hierarchy(interfaces, at + 1),
            }
        }
    }

    /// Validates the implementations and the hierarchy of a module's interfaces.
    pub open spec fn validate(self, items: Items<'hir>) -> (Names<'hir>, Outcome<()>) {
        match self.validate_impls(items.impls, 0) {
            (names, Err(error)) => (names, Err(error)),
            (names, Ok(_)) => names.validate_hierarchy(items.interfaces, 0),
        }
    }
}

impl<'hir> Scope<'hir> {
    fn check_superinterfaces(
        &self,
        implementation: &'hir Impl<'hir>,
        interface_name: &'hir str,
        required: &'hir [SymbolId],
        receiver: Type,
    ) -> (outcome: Result<(), HirError<&'hir str>>)
        ensures
            seen(outcome) == self@.check_superinterfaces(
                *implementation,
                interface_name@,
                required@,
                receiver,
                0,
            ),
    {
        let mut i: usize = 0;
        while i < required.len()
            invariant
                i <= required@.len(),
                self@.check_superinterfaces(
                    *implementation,
                    interface_name@,
                    required@,
                    receiver,
                    0,
                ) == self@.check_superinterfaces(
                    *implementation,
                    interface_name@,
                    required@,
                    receiver,
                    i as nat,
                ),
            decreases required@.len() - i,
        {
            let symbol = required[i];
            if !self.interfaces.contains_key(&symbol.0) {
                let name = self.arena.place_str(self.symbols.name(symbol));
                return Err(
                    HirError::new(HirErrorKind::UnknownInterface { name }, implementation.span),
                );
            }
            if !self.has_impl(receiver, symbol) {
                let superinterface_name = self.arena.place_str(self.symbols.name(symbol));
                return Err(
                    HirError::new(
                        HirErrorKind::MissingSuperinterfaceImpl {
                            struct_name: implementation.name,
                            interface_name,
                            superinterface_name,
                        },
                        implementation.span,
                    ),
                );
            }
            i += 1;
        }
        Ok(())
    }

    fn check_method(
        &self,
        implementation: &'hir Impl<'hir>,
        interface_name: &'hir str,
        required: InterfaceMethodSignature<'hir>,
        table: &Vec<Type>,
        receiver: Type,
    ) -> (outcome: Result<(), HirError<&'hir str>>)
        ensures
            seen(outcome) == self@.check_method(
                *implementation,
                interface_name@,
                required,
                table@,
                receiver,
            ),
    {
        let name = self.arena.place_str(self.symbols.name(required.name));
        let method = match find_method(implementation.methods, name) {
            None => {
                return Err(
                    HirError::new(
                        HirErrorKind::MissingInterfaceMethod {
                            struct_name: implementation.name,
                            interface_name,
                            method_name: name,
                        },
                        implementation.span,
                    ),
                );
            },
            Some(method) => method,
        };
        let missing = HirErrorKind::MissingInterfaceMethod {
            struct_name: implementation.name,
            interface_name,
            method_name: method.name,
        };
        let id = match self.function_id(method, Some(implementation.name), missing) {
            Err(error) => return Err(error),
            Ok(id) => id,
        };
        let signature = match self.signature(id) {
            None => return Err(HirError::new(missing, method.span)),
            Some(signature) => signature,
        };
        let has_receiver = method.receiver.is_some();
        let receiver_mut = signature.receiver_mutable();
        let params = signature.explicit_params();
        let same_receiver = has_receiver == required.has_receiver && (!required.has_receiver
            || required.receiver_mut == receiver_mut);
        let same_return = substitute_self(required.return_type.subst(table.as_slice()), receiver)
            == signature.return_type;
        if same_receiver && check_params(required.params, params, table, receiver) && same_return {
            return Ok(());
        }
        let expected = format_signature(
            name,
            required.has_receiver,
            required.receiver_mut,
            required.params,
            required.return_type,
        );
        let found = format_signature(
            name,
            has_receiver,
            receiver_mut,
            params,
            signature.return_type,
        );
        Err(
            HirError::new(
                HirErrorKind::InterfaceSignatureMismatch {
                    struct_name: implementation.name,
                    interface_name,
                    method_name: name,
                    expected: self.arena.place_str(expected.as_str()),
                    found: self.arena.place_str(found.as_str()),
                    impl_span: implementation.span,
                },
                method.span,
            ),
        )
    }

    fn check_methods(
        &self,
        implementation: &'hir Impl<'hir>,
        interface_name: &'hir str,
        required: &'hir [InterfaceMethodSignature<'hir>],
        table: &Vec<Type>,
        receiver: Type,
    ) -> (outcome: Result<(), HirError<&'hir str>>)
        ensures
            seen(outcome) == self@.check_methods(
                *implementation,
                interface_name@,
                required@,
                table@,
                receiver,
                0,
            ),
    {
        let mut i: usize = 0;
        while i < required.len()
            invariant
                i <= required@.len(),
                self@.check_methods(
                    *implementation,
                    interface_name@,
                    required@,
                    table@,
                    receiver,
                    0,
                ) == self@.check_methods(
                    *implementation,
                    interface_name@,
                    required@,
                    table@,
                    receiver,
                    i as nat,
                ),
            decreases required@.len() - i,
        {
            if let Err(error) = self.check_method(
                implementation,
                interface_name,
                required[i],
                table,
                receiver,
            ) {
                return Err(error);
            }
            i += 1;
        }
        Ok(())
    }

    fn concrete_args(
        &mut self,
        implementation: &'hir Impl<'hir>,
        interface: InterfaceSignature<'hir>,
        receiver: Type,
    ) -> (outcome: Result<Vec<Type>, HirError<&'hir str>>)
        ensures
            (final(self)@, seen_list(outcome)) == old(self)@.concrete_args(
                *implementation,
                interface,
                receiver,
            ),
    {
        if let Some(typ) = implementation.interface_type {
            if let ast::Type::Generic(_, args) = typ.value {
                if interface.generic_params.len() > 0 {
                    let ctx = ResolveCtx::root(self.arena).with_self(receiver);
                    return self.resolve_types(args, ctx, MAX_DEPTH);
                }
            }
        }
        let none: Vec<Type> = Vec::new();
        assert(none@ =~= seq![]);
        Ok(none)
    }

    fn validate_impl(&mut self, implementation: &'hir Impl<'hir>) -> (outcome: Result<
        (),
        HirError<&'hir str>,
    >)
        ensures
            (final(self)@, seen(outcome)) == old(self)@.validate_impl(*implementation),
    {
        let interface_name = match implementation.interface {
            None => return Ok(()),
            Some(interface_name) => interface_name,
        };
        let symbol = self.insert(interface_name);
        let interface = match get(&self.interfaces, symbol) {
            None => {
                return Err(
                    HirError::new(
                        HirErrorKind::UnknownInterface { name: interface_name },
                        implementation.span,
                    ),
                );
            },
            Some(interface) => interface,
        };
        let receiver = match self.lookup_named_type(implementation.name) {
            None => return Ok(()),
            Some(receiver) => receiver,
        };
        let args = match self.concrete_args(implementation, interface, receiver) {
            Err(error) => return Err(error),
            Ok(args) => args,
        };
        if let Err(error) = self.check_superinterfaces(
            implementation,
            interface_name,
            interface.superinterfaces,
            receiver,
        ) {
            return Err(error);
        }
        let table = build_subst_table(&args, interface.generic_params.len());
        self.check_methods(implementation, interface_name, interface.methods, &table, receiver)
    }

    fn validate_impls(&mut self, impls: &Vec<&'hir Impl<'hir>>) -> (outcome: Result<
        (),
        HirError<&'hir str>,
    >)
        ensures
            (final(self)@, seen(outcome)) == old(self)@.validate_impls(impls@, 0),
    {
        let mut i: usize = 0;
        while i < impls.len()
            invariant
                i <= impls@.len(),
                old(self)@.validate_impls(impls@, 0) == self@.validate_impls(impls@, i as nat),
            decreases impls@.len() - i,
        {
            if let Err(error) = self.validate_impl(impls[i]) {
                return Err(error);
            }
            i += 1;
        }
        Ok(())
    }

    fn validate_supers(&mut self, interface: &'hir Interface<'hir>) -> (outcome: Result<
        (),
        HirError<&'hir str>,
    >)
        ensures
            (final(self)@, seen(outcome)) == old(self)@.validate_supers(*interface, 0),
    {
        let supers = interface.superinterfaces;
        let mut i: usize = 0;
        while i < supers.len()
            invariant
                i <= supers@.len(),
                supers == interface.superinterfaces,
                old(self)@.validate_supers(*interface, 0) == self@.validate_supers(
                    *interface,
                    i as nat,
                ),
            decreases supers@.len() - i,
        {
            let name = supers[i];
            let symbol = self.insert(name);
            if !self.interfaces.contains_key(&symbol.0) {
                return Err(HirError::new(HirErrorKind::UnknownInterface { name }, interface.span));
            }
            i += 1;
        }
        Ok(())
    }

    fn validate_hierarchy(&mut self, interfaces: &Vec<&'hir Interface<'hir>>) -> (outcome: Result<
        (),
        HirError<&'hir str>,
    >)
        ensures
            (final(self)@, seen(outcome)) == old(self)@.validate_hierarchy(interfaces@, 0),
    {
        let mut i: usize = 0;
        while i < interfaces.len()
            invariant
                i <= interfaces@.len(),
                old(self)@.validate_hierarchy(interfaces@, 0) == self@.validate_hierarchy(
                    interfaces@,
                    i as nat,
                ),
            decreases interfaces@.len() - i,
        {
            if let Err(error) = self.validate_supers(interfaces[i]) {
                return Err(error);
            }
            i += 1;
        }
        Ok(())
    }

    /// Validates the implementations and the hierarchy of a module's interfaces.
    pub fn validate(&mut self, declarations: &Declarations<'hir>) -> (outcome: Result<
        (),
        HirError<&'hir str>,
    >)
        ensures
            (final(self)@, seen(outcome)) == old(self)@.validate(declarations@),
    {
        match self.validate_impls(&declarations.impls) {
            Err(error) => Err(error),
            Ok(_) => self.validate_hierarchy(&declarations.interfaces),
        }
    }
}

} // verus!
