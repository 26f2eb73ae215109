//! Resolution of type annotations, instantiating generic structs and enums on demand.

use crate::arena::{slice_of, Arena};
use crate::ast;
use crate::ast::{no_span, GenericBound, Span, Spanned};
use crate::hir::error::{seen, HirError, HirErrorKind};
use crate::hir::scope::{env_get, find_in_env, FunctionSignature, GenericEnv, Names, Outcome, Scope};
use crate::hir::symbols::SymbolId;
use crate::hir::table::{get, lookup, member_key, nested_key};
use crate::hir::tree::{
    Enum, EnumVariant, FunctionKind, Intrinsic, Layout, Method, Struct, StructField,
};
use crate::hir::types::{EnumId, EnumRepr, RefTarget, StructId, Type, TypeKind};
use crate::text::text_eq;
use vstd::prelude::*;

verus! {

broadcast use vstd::std_specs::hash::group_hash_axioms;

/// How deep instances may need further instances: as deep as there are ids for them.
pub const MAX_DEPTH: u32 = 0xFFFF_FFFF;

/// What an annotation is read in.
#[derive(Debug, Clone, Copy)]
pub struct ResolveCtx<'hir> {
    /// The meaning of `Self`
    pub self_type: Option<Type>,
    /// Whether `Self` without a meaning stays open instead of being unknown
    pub open_self: bool,
    pub env: GenericEnv<'hir>,
    /// The generic parameters of the enclosing function, inside a body
    pub bounds: Option<&'hir [GenericBound<'hir>]>,
    /// Whether generic types are instantiated; else they are unknown
    pub instantiate: bool,
}

impl<'hir> ResolveCtx<'hir> {
    /// The context outside item collection and bodies: nothing is generic, and `Self` is open.
    pub open spec fn root_spec() -> ResolveCtx<'hir> {
        ResolveCtx {
            self_type: None,
            open_self: true,
            env: slice_of(seq![]),
            bounds: None,
            instantiate: false,
        }
    }

    pub fn root(arena: &'hir Arena) -> (ctx: Self)
        ensures
            ctx == ResolveCtx::<'hir>::root_spec(),
    {
        let env: Vec<(&'hir str, Type)> = Vec::new();
        assert(env@ =~= seq![]);
        ResolveCtx {
            self_type: None,
            open_self: true,
            env: arena.place_slice(&env),
            bounds: None,
            instantiate: false,
        }
    }

    /// The same context with a meaning for `Self`.
    #[verifier::allow_in_spec]
    pub fn with_self(self, typ: Type) -> ResolveCtx<'hir>
        returns
            (ResolveCtx { self_type: Some(typ), ..self }),
    {
        ResolveCtx { self_type: Some(typ), ..self }
    }

    /// The context of items: generic types are instantiated.
    pub open spec fn items_spec(self_type: Option<Type>, env: Seq<(&'hir str, Type)>) -> ResolveCtx<
        'hir,
    > {
        ResolveCtx {
            self_type,
            open_self: true,
            env: slice_of(env),
            bounds: None,
            instantiate: true,
        }
    }

    pub fn items(arena: &'hir Arena, self_type: Option<Type>, env: &Vec<(&'hir str, Type)>) -> (ctx:
        Self)
        ensures
            ctx == ResolveCtx::items_spec(self_type, env@),
    {
        ResolveCtx {
            self_type,
            open_self: true,
            env: arena.place_slice(env),
            bounds: None,
            instantiate: true,
        }
    }
}

/// The type `Self` stands for.
pub open spec fn self_meaning(ctx: ResolveCtx, span: Span) -> Outcome<Type> {
    match ctx.self_type {
        Some(typ) => Ok(typ),
        None => if ctx.open_self {
            Ok(Type::new(TypeKind::SelfType))
        } else {
            Err(HirError::new(HirErrorKind::UnknownType { name: "Self"@ }, span))
        },
    }
}

/// The type as something to refer to.
pub open spec fn ref_target_spec(typ: Type, span: Span) -> Outcome<RefTarget> {
    match RefTarget::from_type(typ) {
        Some(target) => Ok(target),
        None => Err(
            HirError::new(
                HirErrorKind::TypeMismatch { expected: Type::structure(StructId(0)), found: typ },
                span,
            ),
        ),
    }
}

pub fn ref_target<'h>(typ: Type, span: Span) -> (target: Result<RefTarget, HirError<&'h str>>)
    ensures
        seen(target) == ref_target_spec(typ, span),
{
    match RefTarget::from_type(typ) {
        Some(target) => Ok(target),
        None => Err(
            HirError::new(
                HirErrorKind::TypeMismatch { expected: Type::structure(StructId(0)), found: typ },
                span,
            ),
        ),
    }
}

/// The name of the interface a bound asks for.
pub open spec fn bound_name(bound: ast::Type) -> Option<Seq<char>> {
    match bound {
        ast::Type::Named(name) => Some(name@),
        ast::Type::Generic(name, _) => Some(name@),
        _ => None,
    }
}

fn name_of_bound<'s>(bound: &ast::Type<'s>) -> (name: Option<&'s str>)
    ensures
        bound_name(*bound) == (match name {
            Some(name) => Some(name@),
            None => None,
        }),
{
    match *bound {
        ast::Type::Named(name) => Some(name),
        ast::Type::Generic(name, _) => Some(name),
        _ => None,
    }
}

/// Whether one of the bounds is the named interface.
pub open spec fn bounded_by(bounds: Seq<Spanned<ast::Type>>, name: Seq<char>) -> bool {
    exists|i: int| 0 <= i < bounds.len() && bound_name(#[trigger] bounds[i].value) == Some(name)
}

fn is_bounded_by(bounds: &Vec<Spanned<ast::Type>>, name: &str) -> (bounded: bool)
    ensures
        bounded == bounded_by(bounds@, name@),
{
    let mut i: usize = 0;
    while i < bounds.len()
        invariant
            i <= bounds@.len(),
            forall|j: int| 0 <= j < i ==> bound_name(#[trigger] bounds@[j].value) != Some(name@),
        decreases bounds@.len() - i,
    {
        if let Some(bound) = name_of_bound(&bounds[i].value) {
            if text_eq(bound, name) {
                return true;
            }
        }
        i += 1;
    }
    false
}

/// Pairs parameter names with arguments.
pub open spec fn substitution<'hir>(
    generics: Seq<GenericBound<'hir>>,
    args: Seq<Type>,
) -> Seq<(&'hir str, Type)> {
    Seq::new(
        if generics.len() < args.len() {
            generics.len()
        } else {
            args.len()
        },
        |i: int| (generics[i].name, args[i]),
    )
}

pub fn build_substitution<'hir>(generics: &Vec<GenericBound<'hir>>, args: &[Type]) -> (env: Vec<
    (&'hir str, Type),
>)
    ensures
        env@ == substitution(generics@, args@),
{
    let mut env: Vec<(&'hir str, Type)> = Vec::new();
    let mut i: usize = 0;
    while i < generics.len() && i < args.len()
        invariant
            i <= generics@.len(),
            i <= args@.len(),
            env@ =~= substitution(generics@, args@).take(i as int),
        decreases generics@.len() - i,
    {
        env.push((generics[i].name, args[i]));
        i += 1;
    }
    assert(env@ =~= substitution(generics@, args@));
    env
}

/// Every parameter stands for itself.
pub open spec fn param_env<'hir>(generics: Seq<GenericBound<'hir>>) -> Seq<(&'hir str, Type)> {
    Seq::new(generics.len(), |i: int| (generics[i].name, Type::generic_param(i as u8)))
}

pub fn generic_param_env<'hir>(generics: &Vec<GenericBound<'hir>>) -> (env: Vec<(&'hir str, Type)>)
    ensures
        env@ == param_env(generics@),
{
    let mut env: Vec<(&'hir str, Type)> = Vec::new();
    let mut i: usize = 0;
    while i < generics.len()
        invariant
            i <= generics@.len(),
            env@ =~= param_env(generics@).take(i as int),
        decreases generics@.len() - i,
    {
        env.push((generics[i].name, Type::generic_param(#[verifier::truncate] (i as u8))));
        i += 1;
    }
    assert(env@ =~= param_env(generics@));
    env
}

/// The types the parameters of an `impl` block stand for in an instance.
pub open spec fn impl_substitution<'hir>(
    implementation: ast::Impl<'hir>,
    args: Seq<Type>,
) -> Seq<(&'hir str, Type)> {
    if implementation.generics@.len() > 0 {
        substitution(implementation.generics@, args)
    } else {
        match implementation.receiver.value {
            ast::Type::Slice(element, _) => match *element {
                ast::Type::Named(name) => if args.len() > 0 {
                    seq![(name, args[0])]
                } else {
                    seq![]
                },
                _ => seq![],
            },
            ast::Type::Generic(_, receiver_args) => named_args(receiver_args@, args),
            _ => seq![],
        }
    }
}

/// The named ones of `params` with the arguments at their places.
pub open spec fn named_args<'hir>(
    params: Seq<Spanned<ast::Type<'hir>>>,
    args: Seq<Type>,
) -> Seq<(&'hir str, Type)>
    decreases params.len(),
{
    if params.len() == 0 {
        seq![]
    } else {
        let before = named_args(params.drop_last(), args);
        match params.last().value {
            ast::Type::Named(name) => if params.len() <= args.len() {
                before.push((name, args[params.len() - 1]))
            } else {
                before
            },
            _ => before,
        }
    }
}

fn build_impl_substitution<'hir>(implementation: &ast::Impl<'hir>, args: &[Type]) -> (env: Vec<
    (&'hir str, Type),
>)
    ensures
        env@ == impl_substitution(*implementation, args@),
{
    if implementation.generics.len() > 0 {
        return build_substitution(implementation.generics, args);
    }
    let mut env: Vec<(&'hir str, Type)> = Vec::new();
    match implementation.receiver.value {
        ast::Type::Slice(element, _) => {
            if let ast::Type::Named(name) = *element {
                if args.len() > 0 {
                    env.push((name, args[0]));
                    assert(env@ =~= seq![(name, args@[0])]);
                }
            }
        },
        ast::Type::Generic(_, params) => {
            let mut i: usize = 0;
            while i < params.len()
                invariant
                    i <= params@.len(),
                    env@ == named_args(params@.take(i as int), args@),
                decreases params@.len() - i,
            {
                assert(params@.take(i + 1).drop_last() =~= params@.take(i as int));
                if let ast::Type::Named(name) = params[i].value {
                    if i < args.len() {
                        env.push((name, args[i]));
                    }
                }
                i += 1;
            }
            assert(params@.take(i as int) =~= params@);
        },
        _ => {},
    }
    env
}

/// Whether an `impl` block is a template for instances.
pub open spec fn is_generic_impl_spec(implementation: ast::Impl) -> bool {
    implementation.generics@.len() > 0 || match implementation.receiver.value {
        ast::Type::Generic(_, _) => true,
        ast::Type::Slice(element, _) => *element is Named,
        _ => false,
    }
}

pub fn is_generic_impl(implementation: &ast::Impl) -> (generic: bool)
    ensures
        generic == is_generic_impl_spec(*implementation),
{
    if implementation.generics.len() > 0 {
        return true;
    }
    match implementation.receiver.value {
        ast::Type::Generic(_, _) => true,
        ast::Type::Slice(element, _) => match *element {
            ast::Type::Named(_) => true,
            _ => false,
        },
        _ => false,
    }
}

/// The type of a receiver: a slice keeps being a slice.
#[verifier::allow_in_spec]
pub fn receiver_param_type(receiver: Type, mutable: bool) -> Type
    returns
        (match receiver.kind() {
            TypeKind::Slice { mutable: _, element } => Type::slice(element, mutable),
            _ => Type::receiver_ref(receiver, mutable),
        }),
{
    match receiver.kind() {
        TypeKind::Slice { element, .. } => Type::slice(element, mutable),
        _ => Type::receiver_ref(receiver, mutable),
    }
}

/// The intrinsic behind a method of the standard library.
pub open spec fn intrinsic_method_spec(
    in_std: bool,
    receiver: Seq<char>,
    method: Seq<char>,
) -> Option<Intrinsic> {
    if method == "len"@ && (receiver == "[]"@ || (in_std && receiver == "str"@)) {
        Some(Intrinsic::Len)
    } else if in_std && method == "wrapping_add"@ {
        Some(Intrinsic::WrappingAdd)
    } else if in_std && method == "wrapping_sub"@ {
        Some(Intrinsic::WrappingSub)
    } else if in_std && method == "wrapping_mul"@ {
        Some(Intrinsic::WrappingMul)
    } else {
        None
    }
}

pub fn intrinsic_method(in_std: bool, receiver: &str, method: &str) -> (intrinsic: Option<Intrinsic>)
    ensures
        intrinsic == intrinsic_method_spec(in_std, receiver@, method@),
{
    if text_eq(method, "len") && (text_eq(receiver, "[]") || (in_std && text_eq(receiver, "str"))) {
        Some(Intrinsic::Len)
    } else if in_std && text_eq(method, "wrapping_add") {
        Some(Intrinsic::WrappingAdd)
    } else if in_std && text_eq(method, "wrapping_sub") {
        Some(Intrinsic::WrappingSub)
    } else if in_std && text_eq(method, "wrapping_mul") {
        Some(Intrinsic::WrappingMul)
    } else {
        None
    }
}

/// Whether all arguments are still open parameters.
pub open spec fn is_identity(args: Seq<Type>) -> bool {
    args.len() > 0 && forall|i: int|
        0 <= i < args.len() ==> (#[trigger] args[i]).kind() is GenericParam
}

fn all_open(args: &[Type]) -> (identity: bool)
    ensures
        identity == is_identity(args@),
{
    let mut i: usize = 0;
    while i < args.len()
        invariant
            i <= args@.len(),
            forall|j: int| 0 <= j < i ==> (#[trigger] args@[j]).kind() is GenericParam,
        decreases args@.len() - i,
    {
        match args[i].kind() {
            TypeKind::GenericParam(_) => {},
            _ => {
                return false;
            },
        }
        i += 1;
    }
    args.len() > 0
}

/// What the repr annotation of an enum means.
pub open spec fn enum_repr(
    repr: Option<Spanned<ast::Type>>,
    variants: Seq<ast::EnumVariant>,
) -> Outcome<EnumRepr> {
    match repr {
        None => Ok(EnumRepr::minimal_for_spec(variants)),
        Some(explicit) => match EnumRepr::from_ast_spec(explicit.value) {
            Some(repr) => Ok(repr),
            None => Err(
                HirError::new(
                    HirErrorKind::TypeMismatch {
                        expected: Type::new(TypeKind::I32),
                        found: match Type::from_primitive_ast_spec(explicit.value) {
                            Some(typ) => typ,
                            None => Type::new(TypeKind::Unit),
                        },
                    },
                    explicit.span,
                ),
            ),
        },
    }
}

pub fn resolve_enum_repr<'h>(
    repr: &Option<Spanned<ast::Type>>,
    variants: &Vec<ast::EnumVariant>,
) -> (outcome: Result<EnumRepr, HirError<&'h str>>)
    ensures
        seen(outcome) == enum_repr(*repr, variants@),
{
    match *repr {
        None => Ok(EnumRepr::minimal_for(variants)),
        Some(explicit) => match EnumRepr::from_ast(&explicit.value) {
            Some(repr) => Ok(repr),
            None => Err(
                HirError::new(
                    HirErrorKind::TypeMismatch {
                        expected: Type::new(TypeKind::I32),
                        found: match Type::from_primitive_ast(&explicit.value) {
                            Some(typ) => typ,
                            None => Type::new(TypeKind::Unit),
                        },
                    },
                    explicit.span,
                ),
            ),
        },
    }
}

impl<'hir> Names<'hir> {
    /// Whether `typ` implements the named interface.
    pub open spec fn implements(self, typ: Type, interface: Seq<char>) -> bool {
        match self.get_id(interface) {
            Some(symbol) => self.interface_impls.contains((typ, symbol)),
            None => false,
        }
    }

    /// Whether `typ` may stand for a parameter with the given bound, an open parameter being
    /// judged by the bounds of the enclosing function where there is one.
    pub open spec fn satisfies(
        self,
        typ: Type,
        interface: Seq<char>,
        enclosing: Option<Seq<GenericBound<'hir>>>,
    ) -> bool {
        match (typ.kind(), enclosing) {
            (TypeKind::GenericParam(index), Some(generics)) => index < generics.len()
                && bounded_by(generics[index as int].bounds@, interface),
            (TypeKind::GenericParam(_), None) => true,
            _ => self.implements(typ, interface),
        }
    }

    /// What is wrong with the bounds of one parameter from position `at` on.
    pub open spec fn check_param(
        self,
        bounds: Seq<Spanned<ast::Type<'hir>>>,
        typ: Type,
        enclosing: Option<Seq<GenericBound<'hir>>>,
        span: Span,
        at: int,
    ) -> Outcome<()>
        decreases bounds.len() - at,
    {
        if at < 0 || at >= bounds.len() {
            Ok(())
        } else {
            match bound_name(bounds[at].value) {
                Some(interface) => if self.satisfies(typ, interface, enclosing) {
                    self.check_param(bounds, typ, enclosing, span, at + 1)
                } else {
                    Err(
                        HirError::new(
                            HirErrorKind::UnsatisfiedBound { typ, bound_name: interface },
                            span,
                        ),
                    )
                },
                None => self.check_param(bounds, typ, enclosing, span, at + 1),
            }
        }
    }

    /// What is wrong with the bounds of the parameters from position `at` on.
    pub open spec fn check_bounds(
        self,
        generics: Seq<GenericBound<'hir>>,
        args: Seq<Type>,
        enclosing: Option<Seq<GenericBound<'hir>>>,
        span: Span,
        at: int,
    ) -> Outcome<()>
        decreases generics.len() - at,
    {
        if at < 0 || at >= generics.len() || at >= args.len() {
            Ok(())
        } else {
            match self.check_param(generics[at].bounds@, args[at], enclosing, span, 0) {
                Err(error) => Err(error),
                Ok(_) => self.check_bounds(generics, args, enclosing, span, at + 1),
            }
        }
    }

    /// Checks arity and bounds of generic arguments.
    pub open spec fn check_generic_args(
        self,
        name: Seq<char>,
        generics: Seq<GenericBound<'hir>>,
        args: Seq<Type>,
        span: Span,
    ) -> Outcome<()> {
        if generics.len() != args.len() {
            Err(
                HirError::new(
                    HirErrorKind::ArityMismatch {
                        name,
                        expected: generics.len() as usize,
                        found: args.len() as usize,
                    },
                    span,
                ),
            )
        } else {
            self.check_bounds(generics, args, None, span, 0)
        }
    }

    /// Interns the parameter names from position `at` on.
    pub open spec fn insert_generics(
        self,
        generics: Seq<GenericBound<'hir>>,
        at: int,
        names: Seq<SymbolId>,
    ) -> (Names<'hir>, Seq<SymbolId>)
        decreases generics.len() - at,
    {
        if at < 0 || at >= generics.len() {
            (self, names)
        } else {
            let (next, symbol) = self.insert(generics[at].name@);
            next.insert_generics(generics, at + 1, names.push(symbol))
        }
    }

    /// The parameter names shown for an instance: only those of an open one.
    pub open spec fn declared_names(
        self,
        generics: Seq<GenericBound<'hir>>,
        args: Seq<Type>,
    ) -> (Names<'hir>, Seq<SymbolId>) {
        if is_identity(args) {
            self.insert_generics(generics, 0, seq![])
        } else {
            (self, seq![])
        }
    }

    /// The type an annotation stands for.
    pub open spec fn resolve_type(
        self,
        typ: ast::Type<'hir>,
        span: Span,
        ctx: ResolveCtx<'hir>,
        fuel: nat,
    ) -> (Names<'hir>, Outcome<Type>)
        decreases fuel, 9nat, typ, 0nat,
    {
        match typ {
            ast::Type::Named(name) => (
                self,
                match env_get(ctx.env@, name@) {
                    Some(typ) => Ok(typ),
                    None => {
                        let nominal = match self.get_id(name@) {
                            Some(symbol) => self.nominal_type(symbol),
                            None => None,
                        };
                        match nominal {
                            Some(typ) => Ok(typ),
                            None => Err(
                                HirError::new(HirErrorKind::UnknownType { name: name@ }, span),
                            ),
                        }
                    },
                },
            ),
            ast::Type::Ref(inner, mutable) => match self.resolve_type(*inner, span, ctx, fuel) {
                (names, Err(error)) => (names, Err(error)),
                (names, Ok(inner)) => (
                    names,
                    match ref_target_spec(inner, span) {
                        Ok(to) => Ok(Type::refer(to, mutable)),
                        Err(error) => Err(error),
                    },
                ),
            },
            ast::Type::Array(element, len) => match self.resolve_type(*element, span, ctx, fuel) {
                (names, Err(error)) => (names, Err(error)),
                (names, Ok(element)) => {
                    let (arrays, id) = names.arrays.intern(element, len as u32);
                    (Names { arrays, ..names }, Ok(Type::array(id)))
                },
            },
            ast::Type::Slice(element, mutable) => match self.resolve_type(
                *element,
                span,
                ctx,
                fuel,
            ) {
                (names, Err(error)) => (names, Err(error)),
                (names, Ok(element)) => (
                    names,
                    match ref_target_spec(element, span) {
                        Ok(element) => Ok(Type::slice(element, mutable)),
                        Err(error) => Err(error),
                    },
                ),
            },
            ast::Type::SelfType => (self, self_meaning(ctx, span)),
            ast::Type::RefSelf => (
                self,
                match self_meaning(ctx, span) {
                    Err(error) => Err(error),
                    Ok(self_type) => match ref_target_spec(self_type, span) {
                        Ok(to) => Ok(Type::refer(to, false)),
                        Err(error) => Err(error),
                    },
                },
            ),
            ast::Type::Generic(name, args) => match self.resolve_types(args@, 0, seq![], ctx, fuel) {
                (names, Err(error)) => (names, Err(error)),
                (names, Ok(args)) => if !ctx.instantiate {
                    (names, Err(HirError::new(HirErrorKind::UnknownType { name: name@ }, span)))
                } else {
                    match names.instantiate_generic(name@, args, span, fuel) {
                    (names, Err(error)) => (names, Err(error)),
                    (names, Ok(typ)) => (
                        names,
                        match names.check_template(name@, args, ctx, span) {
                            Err(error) => Err(error),
                            Ok(_) => Ok(typ),
                        },
                    ),
                    }
                },
            },
            primitive => (
                self,
                match Type::from_primitive_ast_spec(primitive) {
                    Some(typ) => Ok(typ),
                    None => Err(
                        HirError::new(
                            HirErrorKind::UnknownType { name: "<unsupported type>"@ },
                            span,
                        ),
                    ),
                },
            ),
        }
    }

    /// Inside a body, checks the bounds of the template a type was made from.
    pub open spec fn check_template(
        self,
        name: Seq<char>,
        args: Seq<Type>,
        ctx: ResolveCtx<'hir>,
        span: Span,
    ) -> Outcome<()> {
        match (ctx.bounds, self.get_id(name)) {
            (Some(enclosing), Some(symbol)) => match lookup(self.generic_structs, symbol.0) {
                Some(template) => self.check_bounds(
                    template.generics@,
                    args,
                    Some(enclosing@),
                    span,
                    0,
                ),
                None => match lookup(self.generic_enums, symbol.0) {
                    Some(template) => self.check_bounds(
                        template.generics@,
                        args,
                        Some(enclosing@),
                        span,
                        0,
                    ),
                    None => Ok(()),
                },
            },
            _ => Ok(()),
        }
    }

    /// The types a list of annotations stands for, from position `at` on.
    pub open spec fn resolve_types(
        self,
        types: Seq<Spanned<ast::Type<'hir>>>,
        at: nat,
        resolved: Seq<Type>,
        ctx: ResolveCtx<'hir>,
        fuel: nat,
    ) -> (Names<'hir>, Outcome<Seq<Type>>)
        decreases fuel, 9nat, types, types.len() - at,
    {
        if at >= types.len() {
            (self, Ok(resolved))
        } else {
            match self.resolve_type(types[at as int].value, types[at as int].span, ctx, fuel) {
                (names, Err(error)) => (names, Err(error)),
                (names, Ok(typ)) => names.resolve_types(
                    types,
                    at + 1,
                    resolved.push(typ),
                    ctx,
                    fuel,
                ),
            }
        }
    }

    /// The types of parameters from position `at` on; a bad annotation poisons its parameter.
    pub open spec fn resolve_params(
        self,
        params: Seq<ast::Parameter<'hir>>,
        at: nat,
        resolved: Seq<Type>,
        ctx: ResolveCtx<'hir>,
        fuel: nat,
    ) -> (Names<'hir>, Outcome<Seq<Type>>)
        decreases fuel, 10nat, params, params.len() - at,
    {
        if at >= params.len() {
            (self, Ok(resolved))
        } else {
            let typ = params[at as int].typ;
            match self.resolve_or_poison(typ, ctx, fuel) {
                (names, Err(error)) => (names, Err(error)),
                (names, Ok(typ)) => names.resolve_params(
                    params,
                    at + 1,
                    resolved.push(typ),
                    ctx,
                    fuel,
                ),
            }
        }
    }

    /// The type an annotation stands for, poisoned if it is wrong.
    pub open spec fn resolve_or_poison(
        self,
        typ: Spanned<ast::Type<'hir>>,
        ctx: ResolveCtx<'hir>,
        fuel: nat,
    ) -> (Names<'hir>, Outcome<Type>)
        decreases fuel, 9nat, typ, 1nat,
    {
        match self.resolve_type(typ.value, typ.span, ctx, fuel) {
            (names, Err(error)) => names.poison(error),
            (names, Ok(typ)) => (names, Ok(typ)),
        }
    }

    /// The type a function returns.
    pub open spec fn resolve_return_type(
        self,
        return_type: Option<Spanned<ast::Type<'hir>>>,
        ctx: ResolveCtx<'hir>,
        fuel: nat,
    ) -> (Names<'hir>, Outcome<Type>)
        decreases fuel, 10nat, return_type, 0nat,
    {
        match return_type {
            None => (self, Ok(Type::new(TypeKind::Unit))),
            Some(typ) => self.resolve_or_poison(typ, ctx, fuel),
        }
    }

    /// The instance of a generic struct or enum for the given arguments.
    pub open spec fn instantiate_generic(
        self,
        name: Seq<char>,
        args: Seq<Type>,
        span: Span,
        fuel: nat,
    ) -> (Names<'hir>, Outcome<Type>)
        decreases fuel, 8nat, args, 0nat,
    {
        let (names, instance) = self.insert(self.mangle_generic(name, args));
        match names.nominal_type(instance) {
            Some(typ) => (names, Ok(typ)),
            None => {
                let (as_enum, as_struct) = match names.get_id(name) {
                    Some(symbol) => (
                        lookup(names.generic_enums, symbol.0),
                        lookup(names.generic_structs, symbol.0),
                    ),
                    None => (None, None),
                };
                match (as_enum, as_struct) {
                    (Some(template), _) => names.instantiate_enum(
                        *template,
                        instance,
                        args,
                        span,
                        fuel,
                    ),
                    (None, Some(template)) => names.instantiate_struct(
                        *template,
                        instance,
                        args,
                        span,
                        fuel,
                    ),
                    (None, None) => (
                        names,
                        Err(HirError::new(HirErrorKind::UnknownType { name }, span)),
                    ),
                }
            },
        }
    }

    /// The names with an enum that has no variants yet.
    pub open spec fn declare_enum(
        self,
        name: SymbolId,
        repr: EnumRepr,
        decl_span: Span,
        generics: Seq<SymbolId>,
    ) -> (Names<'hir>, EnumId) {
        let id = EnumId(self.enums.len() as u32, repr);
        (
            Names {
                enum_map: self.enum_map.insert(name.0, id),
                enums: self.enums.push(
                    Enum {
                        id,
                        name,
                        decl_span,
                        variants: slice_of(seq![]),
                        repr,
                        layout: Layout::new(0, 1, false),
                        payload_offset: 0,
                        generics: slice_of(generics),
                    },
                ),
                ..self
            },
            id,
        )
    }

    /// The names with the variants of an enum filled in.
    pub open spec fn set_variants(self, index: int, variants: Seq<EnumVariant>) -> Names<'hir> {
        if 0 <= index < self.enums.len() {
            Names {
                enums: self.enums.update(
                    index,
                    Enum { variants: slice_of(variants), ..self.enums[index] },
                ),
                ..self
            }
        } else {
            self
        }
    }

    pub open spec fn instantiate_enum(
        self,
        template: ast::Enum<'hir>,
        instance: SymbolId,
        args: Seq<Type>,
        span: Span,
        fuel: nat,
    ) -> (Names<'hir>, Outcome<Type>)
        decreases fuel, 7nat, args, 0nat,
    {
        if fuel == 0 {
            (
                self,
                Err(
                    HirError::new(HirErrorKind::InstantiationTooDeep { name: template.name@ }, span),
                ),
            )
        } else {
            match self.check_generic_args(template.name@, template.generics@, args, span) {
                Err(error) => (self, Err(error)),
                Ok(_) => match enum_repr(template.repr, template.variants@) {
                    Err(error) => (self, Err(error)),
                    Ok(repr) => {
                        let (named, generics) = self.declared_names(template.generics@, args);
                        let (declared, id) = named.declare_enum(
                            instance,
                            repr,
                            no_span(),
                            generics,
                        );
                        let ctx = ResolveCtx::items_spec(None, substitution(template.generics@, args));
                        match declared.instance_variants(
                            template.variants@,
                            0,
                            instance,
                            id,
                            0,
                            seq![],
                            seq![],
                            ctx,
                            fuel,
                        ) {
                            (names, Err(error)) => (names, Err(error)),
                            (names, Ok(variants)) => {
                                let names = names.set_variants(self.enums.len() as int, variants);
                                let receiver = Type::enumerable(id);
                                match names.specialize_impls(
                                    names.generic_impls,
                                    0,
                                    template.name@,
                                    instance,
                                    receiver,
                                    args,
                                    fuel,
                                ) {
                                    (names, Err(error)) => (names, Err(error)),
                                    (names, Ok(_)) => (names, Ok(receiver)),
                                }
                            },
                        }
                    },
                },
            }
        }
    }

    /// The variants of an instance from position `at` on.
    pub open spec fn instance_variants(
        self,
        variants: Seq<ast::EnumVariant<'hir>>,
        at: nat,
        instance: SymbolId,
        id: EnumId,
        next_value: i64,
        declared: Seq<SymbolId>,
        lowered: Seq<EnumVariant>,
        ctx: ResolveCtx<'hir>,
        fuel: nat,
    ) -> (Names<'hir>, Outcome<Seq<EnumVariant>>)
        decreases fuel, 6nat, variants, variants.len() - at,
    {
        if at >= variants.len() || fuel == 0 {
            (self, Ok(lowered))
        } else {
            let variant = variants[at as int];
            let (names, symbol) = self.insert(variant.name@);
            if declared.contains(symbol) {
                (
                    names,
                    Err(
                        HirError::new(
                            HirErrorKind::DuplicateVariant { name: variant.name@ },
                            variant.span,
                        ),
                    ),
                )
            } else {
                let value = match variant.value {
                    Some(value) => value,
                    None => next_value,
                };
                let (names, payload) = match variant.payload {
                    None => (names, Ok(None)),
                    Some(typ) => match names.resolve_or_poison(typ, ctx, (fuel - 1) as nat) {
                        (names, Err(error)) => (names, Err(error)),
                        (names, Ok(typ)) => (names, Ok(Some(typ))),
                    },
                };
                match payload {
                    Err(error) => (names, Err(error)),
                    Ok(payload) => {
                        let names = Names {
                            enum_variants: names.enum_variants.insert(
                                nested_key(instance, symbol),
                                (id, value),
                            ),
                            ..names
                        };
                        names.instance_variants(
                            variants,
                            at + 1,
                            instance,
                            id,
                            value.wrapping_add(1),
                            declared.push(symbol),
                            lowered.push(EnumVariant { name: symbol, value, payload }),
                            ctx,
                            fuel,
                        )
                    },
                }
            }
        }
    }

    /// The names with a struct that has no fields yet.
    pub open spec fn declare_struct(
        self,
        name: SymbolId,
        decl_span: Span,
        repr: ast::StructRepr,
        generics: Seq<SymbolId>,
    ) -> (Names<'hir>, StructId) {
        let id = StructId(self.structs.len() as u32);
        (
            Names {
                struct_map: self.struct_map.insert(name.0, id),
                structs: self.structs.push(
                    Struct {
                        id,
                        name,
                        decl_span,
                        fields: slice_of(seq![]),
                        repr,
                        layout: Layout::new(0, 1, false),
                        generics: slice_of(generics),
                    },
                ),
                ..self
            },
            id,
        )
    }

    /// The names with the fields of a struct filled in.
    pub open spec fn set_fields(self, index: int, fields: Seq<StructField>) -> Names<'hir> {
        if 0 <= index < self.structs.len() {
            Names {
                structs: self.structs.update(
                    index,
                    Struct { fields: slice_of(fields), ..self.structs[index] },
                ),
                ..self
            }
        } else {
            self
        }
    }

    pub open spec fn instantiate_struct(
        self,
        template: ast::Struct<'hir>,
        instance: SymbolId,
        args: Seq<Type>,
        span: Span,
        fuel: nat,
    ) -> (Names<'hir>, Outcome<Type>)
        decreases fuel, 7nat, args, 0nat,
    {
        if fuel == 0 {
            (
                self,
                Err(
                    HirError::new(HirErrorKind::InstantiationTooDeep { name: template.name@ }, span),
                ),
            )
        } else {
            match self.check_generic_args(template.name@, template.generics@, args, span) {
                Err(error) => (self, Err(error)),
                Ok(_) => {
                    let (named, generics) = self.declared_names(template.generics@, args);
                    let (declared, id) = named.declare_struct(
                        instance,
                        no_span(),
                        template.repr,
                        generics,
                    );
                    let ctx = ResolveCtx::items_spec(None, substitution(template.generics@, args));
                    match declared.instance_fields(template.fields@, 0, seq![], ctx, fuel) {
                        (names, Err(error)) => (names, Err(error)),
                        (names, Ok(fields)) => {
                            let names = names.set_fields(self.structs.len() as int, fields);
                            let receiver = Type::structure(id);
                            match names.specialize_impls(
                                names.generic_impls,
                                0,
                                template.name@,
                                instance,
                                receiver,
                                args,
                                fuel,
                            ) {
                                (names, Err(error)) => (names, Err(error)),
                                (names, Ok(_)) => (names, Ok(receiver)),
                            }
                        },
                    }
                },
            }
        }
    }

    /// The fields of an instance from position `at` on.
    pub open spec fn instance_fields(
        self,
        fields: Seq<ast::Field<'hir>>,
        at: nat,
        lowered: Seq<StructField>,
        ctx: ResolveCtx<'hir>,
        fuel: nat,
    ) -> (Names<'hir>, Outcome<Seq<StructField>>)
        decreases fuel, 6nat, fields, fields.len() - at,
    {
        if at >= fields.len() || fuel == 0 {
            (self, Ok(lowered))
        } else {
            let field = fields[at as int];
            match self.resolve_or_poison(field.typ, ctx, (fuel - 1) as nat) {
                (names, Err(error)) => (names, Err(error)),
                (names, Ok(typ)) => {
                    let (names, symbol) = names.insert(field.name@);
                    names.instance_fields(
                        fields,
                        at + 1,
                        lowered.push(StructField { name: symbol, typ, offset: 0 }),
                        ctx,
                        fuel,
                    )
                },
            }
        }
    }

    /// Records that `typ` implements an interface.
    pub open spec fn add_impl(self, typ: Type, interface: SymbolId) -> Names<'hir> {
        if self.interface_impls.contains((typ, interface)) {
            self
        } else {
            Names { interface_impls: self.interface_impls.push((typ, interface)), ..self }
        }
    }

    /// Gives an instance the methods of the matching ones of `impls`, from position `at` on.
    pub open spec fn specialize_impls(
        self,
        impls: Seq<&'hir ast::Impl<'hir>>,
        at: nat,
        template_name: Seq<char>,
        instance: SymbolId,
        receiver: Type,
        args: Seq<Type>,
        fuel: nat,
    ) -> (Names<'hir>, Outcome<()>)
        decreases fuel, 5nat, impls, impls.len() - at,
    {
        if at >= impls.len() {
            (self, Ok(()))
        } else {
            let implementation = *impls[at as int];
            if implementation.name@ != template_name {
                self.specialize_impls(impls, at + 1, template_name, instance, receiver, args, fuel)
            } else {
                let names = match implementation.interface {
                    Some(interface) => {
                        let (names, symbol) = self.insert(interface@);
                        names.add_impl(receiver, symbol)
                    },
                    None => self,
                };
                let env = impl_substitution(implementation, args);
                match names.specialize_methods(
                    implementation,
                    0,
                    instance,
                    receiver,
                    env,
                    fuel,
                ) {
                    (names, Err(error)) => (names, Err(error)),
                    (names, Ok(_)) => names.specialize_impls(
                        impls,
                        at + 1,
                        template_name,
                        instance,
                        receiver,
                        args,
                        fuel,
                    ),
                }
            }
        }
    }

    /// The canonical name of a method of `owner`.
    pub open spec fn method_name(
        self,
        owner: Seq<char>,
        interface: Option<&'hir str>,
        method: Seq<char>,
    ) -> Seq<char> {
        match interface {
            Some(interface) => self.interface_item(owner, interface@, method),
            None => self.scoped_item(owner, method),
        }
    }

    /// Gives an instance the methods of one `impl` block from position `at` on.
    pub open spec fn specialize_methods(
        self,
        implementation: ast::Impl<'hir>,
        at: nat,
        instance: SymbolId,
        receiver: Type,
        env: Seq<(&'hir str, Type)>,
        fuel: nat,
    ) -> (Names<'hir>, Outcome<()>)
        decreases fuel, 4nat, implementation, implementation.methods@.len() - at,
    {
        if at >= implementation.methods@.len() || fuel == 0 {
            (self, Ok(()))
        } else {
            match self.specialize_method(
                implementation,
                implementation.methods@[at as int],
                instance,
                receiver,
                env,
                fuel,
            ) {
                (names, Err(error)) => (names, Err(error)),
                (names, Ok(_)) => names.specialize_methods(
                    implementation,
                    at + 1,
                    instance,
                    receiver,
                    env,
                    fuel,
                ),
            }
        }
    }

    /// Gives an instance one method.
    pub open spec fn specialize_method(
        self,
        implementation: ast::Impl<'hir>,
        method: &'hir ast::Function<'hir>,
        instance: SymbolId,
        receiver: Type,
        env: Seq<(&'hir str, Type)>,
        fuel: nat,
    ) -> (Names<'hir>, Outcome<()>)
        decreases fuel, 3nat, implementation, 0nat,
    {
        if fuel == 0 {
            (self, Ok(()))
        } else {
            let (names, method_symbol) = self.insert(method.name@);
            let (names, mangled) = names.insert(
                names.method_name(names.name(instance), implementation.interface, method.name@),
            );
            let ctx = ResolveCtx::items_spec(Some(receiver), env + param_env(method.generics@));
            let first = match method.receiver {
                Some(r) => seq![receiver_param_type(receiver, r.mutable)],
                None => seq![],
            };
            match names.resolve_params(method.params@, 0, first, ctx, (fuel - 1) as nat) {
                (names, Err(error)) => (names, Err(error)),
                (names, Ok(params)) => match names.resolve_return_type(
                    method.return_type,
                    ctx,
                    (fuel - 1) as nat,
                ) {
                    (names, Err(error)) => (names, Err(error)),
                    (names, Ok(return_type)) => (
                        names.add_instance_method(
                            implementation,
                            method,
                            method_symbol,
                            mangled,
                            receiver,
                            params,
                            return_type,
                            env,
                        ),
                        Ok(()),
                    ),
                },
            }
        }
    }

    /// Adds the signature and template of an instance's method.
    pub open spec fn add_instance_method(
        self,
        implementation: ast::Impl<'hir>,
        method: &'hir ast::Function<'hir>,
        method_symbol: SymbolId,
        mangled: SymbolId,
        receiver: Type,
        params: Seq<Type>,
        return_type: Type,
        env: Seq<(&'hir str, Type)>,
    ) -> Names<'hir> {
        let intrinsic = intrinsic_method_spec(false, implementation.name@, method.name@);
        let kind = match (intrinsic, method.receiver) {
            (Some(i), _) => FunctionKind::Intrinsic(i),
            (None, Some(r)) => FunctionKind::Method(
                Method { receiver, name: method_symbol, mutable: r.mutable },
            ),
            (None, None) => FunctionKind::Free,
        };
        let (names, id) = self.push_signature(
            FunctionSignature {
                name: mangled,
                params: slice_of(params),
                return_type,
                kind,
                is_const: method.is_const,
            },
        );
        let names = if method.receiver is Some {
            Names {
                methods: names.methods.insert(member_key(receiver, method_symbol), id),
                ..names
            }
        } else {
            Names { functions: names.functions.insert(mangled.0, id), ..names }
        };
        if intrinsic is None {
            Names {
                generic_fns: names.generic_fns.insert(id.0, method),
                generic_fn_envs: names.generic_fn_envs.insert(id.0, slice_of(env)),
                ..names
            }
        } else {
            names
        }
    }

    /// Gives a slice type the methods of `impl [T]` blocks, once.
    pub open spec fn specialize_slice_impls(self, slice: Type, fuel: nat) -> (
        Names<'hir>,
        Outcome<()>,
    ) {
        match slice.kind() {
            TypeKind::Slice { mutable, element } => {
                let canonical = Type::slice(element, false);
                if self.specialized_slices.contains(canonical) {
                    (self, Ok(()))
                } else {
                    let names = Names {
                        specialized_slices: self.specialized_slices.push(canonical),
                        ..self
                    };
                    let element = Type::from_target(element);
                    let (names, instance) = names.insert(
                        names.mangle_generic("slice"@, seq![element]),
                    );
                    names.specialize_impls(
                        names.generic_impls,
                        0,
                        "[]"@,
                        instance,
                        canonical,
                        seq![element],
                        fuel,
                    )
                }
            },
            _ => (self, Ok(())),
        }
    }
}

/// The outcome of building a list as contracts see it.
pub open spec fn seen_list<'h, T>(result: Result<Vec<T>, HirError<&'h str>>) -> Outcome<Seq<T>> {
    match result {
        Ok(items) => Ok(items@),
        Err(error) => Err(error@),
    }
}

impl<'hir> Scope<'hir> {
    fn implements(&self, typ: Type, interface: &str) -> (implemented: bool)
        ensures
            implemented == self@.implements(typ, interface@),
    {
        match self.symbols.get_id(interface) {
            Some(symbol) => self.has_impl(typ, symbol),
            None => false,
        }
    }

    /// Whether `typ` is known to implement an interface.
    pub fn has_impl(&self, typ: Type, interface: SymbolId) -> (implemented: bool)
        ensures
            implemented == self@.interface_impls.contains((typ, interface)),
    {
        let mut i: usize = 0;
        while i < self.interface_impls.len()
            invariant
                i <= self.interface_impls@.len(),
                forall|j: int| 0 <= j < i ==> #[trigger] self.interface_impls@[j] != (typ, interface),
            decreases self.interface_impls@.len() - i,
        {
            let entry = self.interface_impls[i];
            if entry.0 == typ && entry.1 == interface {
                assert(self.interface_impls@[i as int] == (typ, interface));
                return true;
            }
            i += 1;
        }
        false
    }

    /// Records that `typ` implements an interface.
    pub fn add_impl(&mut self, typ: Type, interface: SymbolId)
        ensures
            final(self)@ == old(self)@.add_impl(typ, interface),
    {
        if !self.has_impl(typ, interface) {
            self.interface_impls.push((typ, interface));
        }
    }

    fn satisfies(
        &self,
        typ: Type,
        interface: &str,
        enclosing: Option<&'hir [GenericBound<'hir>]>,
    ) -> (satisfied: bool)
        ensures
            satisfied == self@.satisfies(
                typ,
                interface@,
                match enclosing {
                    Some(generics) => Some(generics@),
                    None => None,
                },
            ),
    {
        match (typ.kind(), enclosing) {
            (TypeKind::GenericParam(index), Some(generics)) => {
                let at: usize = index as usize;
                at < generics.len() && is_bounded_by(generics[at].bounds, interface)
            },
            (TypeKind::GenericParam(_), None) => true,
            _ => self.implements(typ, interface),
        }
    }

    /// Checks that every argument satisfies the bounds of its parameter.
    pub fn check_bounds(
        &self,
        generics: &Vec<GenericBound<'hir>>,
        args: &[Type],
        enclosing: Option<&'hir [GenericBound<'hir>]>,
        span: Span,
    ) -> (outcome: Result<(), HirError<&'hir str>>)
        ensures
            seen(outcome) == self@.check_bounds(
                generics@,
                args@,
                match enclosing {
                    Some(generics) => Some(generics@),
                    None => None,
                },
                span,
                0,
            ),
    {
        let ghost around = match enclosing {
            Some(generics) => Some(generics@),
            None => None,
        };
        let mut i: usize = 0;
        while i < generics.len() && i < args.len()
            invariant
                i <= generics@.len(),
                i <= args@.len(),
                around == (match enclosing {
                    Some(generics) => Some(generics@),
                    None => None,
                }),
                self@.check_bounds(generics@, args@, around, span, 0) == self@.check_bounds(
                    generics@,
                    args@,
                    around,
                    span,
                    i as int,
                ),
            decreases generics@.len() - i,
        {
            let bounds = generics[i].bounds;
            let typ = args[i];
            let mut j: usize = 0;
            while j < bounds.len()
                invariant
                    j <= bounds@.len(),
                    around == (match enclosing {
                        Some(generics) => Some(generics@),
                        None => None,
                    }),
                    i < generics@.len(),
                    i < args@.len(),
                    bounds == generics@[i as int].bounds,
                    typ == args@[i as int],
                    self@.check_bounds(generics@, args@, around, span, 0) == self@.check_bounds(
                        generics@,
                        args@,
                        around,
                        span,
                        i as int,
                    ),
                    self@.check_param(bounds@, typ, around, span, 0) == self@.check_param(
                        bounds@,
                        typ,
                        around,
                        span,
                        j as int,
                    ),
                decreases bounds@.len() - j,
            {
                if let Some(interface) = name_of_bound(&bounds[j].value) {
                    if !self.satisfies(typ, interface, enclosing) {
                        return Err(
                            HirError::new(
                                HirErrorKind::UnsatisfiedBound { typ, bound_name: interface },
                                span,
                            ),
                        );
                    }
                }
                j += 1;
            }
            i += 1;
        }
        Ok(())
    }

    fn check_generic_args(
        &self,
        name: &'hir str,
        generics: &Vec<GenericBound<'hir>>,
        args: &[Type],
        span: Span,
    ) -> (outcome: Result<(), HirError<&'hir str>>)
        ensures
            seen(outcome) == self@.check_generic_args(name@, generics@, args@, span),
    {
        if generics.len() != args.len() {
            return Err(
                HirError::new(
                    HirErrorKind::ArityMismatch {
                        name,
                        expected: generics.len(),
                        found: args.len(),
                    },
                    span,
                ),
            );
        }
        self.check_bounds(generics, args, None, span)
    }

    fn declared_names(&mut self, generics: &Vec<GenericBound<'hir>>, args: &[Type]) -> (names: Vec<
        SymbolId,
    >)
        ensures
            (final(self)@, names@) == old(self)@.declared_names(generics@, args@),
    {
        let mut names: Vec<SymbolId> = Vec::new();
        if all_open(args) {
            let mut i: usize = 0;
            while i < generics.len()
                invariant
                    i <= generics@.len(),
                    old(self)@.insert_generics(generics@, 0, seq![]) == self@.insert_generics(
                        generics@,
                        i as int,
                        names@,
                    ),
                decreases generics@.len() - i,
            {
                let symbol = self.insert(generics[i].name);
                names.push(symbol);
                i += 1;
            }
        }
        names
    }

    /// The type an annotation stands for, instantiating generic structs and enums on demand.
    pub fn resolve_type(
        &mut self,
        typ: &ast::Type<'hir>,
        span: Span,
        ctx: ResolveCtx<'hir>,
        fuel: u32,
    ) -> (outcome: Result<Type, HirError<&'hir str>>)
        ensures
            (final(self)@, seen(outcome)) == old(self)@.resolve_type(*typ, span, ctx, fuel as nat),
        decreases fuel, 9nat, *typ, 0nat,
    {
        match *typ {
            ast::Type::Named(name) => {
                if let Some(typ) = find_in_env(ctx.env, name) {
                    return Ok(typ);
                }
                let nominal = match self.symbols.get_id(name) {
                    Some(symbol) => self.nominal_type(symbol),
                    None => None,
                };
                match nominal {
                    Some(typ) => Ok(typ),
                    None => Err(HirError::new(HirErrorKind::UnknownType { name }, span)),
                }
            },
            ast::Type::Ref(inner, mutable) => match self.resolve_type(inner, span, ctx, fuel) {
                Err(error) => Err(error),
                Ok(inner) => match ref_target(inner, span) {
                    Ok(to) => Ok(Type::refer(to, mutable)),
                    Err(error) => Err(error),
                },
            },
            ast::Type::Array(element, len) => match self.resolve_type(element, span, ctx, fuel) {
                Err(error) => Err(error),
                Ok(element) => {
                    let id = self.arrays.intern(element, #[verifier::truncate] (len as u32));
                    Ok(Type::array(id))
                },
            },
            ast::Type::Slice(element, mutable) => match self.resolve_type(
                element,
                span,
                ctx,
                fuel,
            ) {
                Err(error) => Err(error),
                Ok(element) => match ref_target(element, span) {
                    Ok(element) => Ok(Type::slice(element, mutable)),
                    Err(error) => Err(error),
                },
            },
            ast::Type::SelfType => self_type_of(ctx, span),
            ast::Type::RefSelf => match self_type_of(ctx, span) {
                Err(error) => Err(error),
                Ok(self_type) => match ref_target(self_type, span) {
                    Ok(to) => Ok(Type::refer(to, false)),
                    Err(error) => Err(error),
                },
            },
            ast::Type::Generic(name, args) => {
                let args = match self.resolve_types(args, ctx, fuel) {
                    Err(error) => return Err(error),
                    Ok(args) => args,
                };
                if !ctx.instantiate {
                    return Err(HirError::new(HirErrorKind::UnknownType { name }, span));
                }
                match self.instantiate_generic(name, args.as_slice(), span, fuel) {
                    Err(error) => Err(error),
                    Ok(typ) => match self.check_template(name, args.as_slice(), ctx, span) {
                        Err(error) => Err(error),
                        Ok(_) => Ok(typ),
                    },
                }
            },
            _ => match Type::from_primitive_ast(typ) {
                Some(typ) => Ok(typ),
                None => Err(
                    HirError::new(HirErrorKind::UnknownType { name: "<unsupported type>" }, span),
                ),
            },
        }
    }

    fn check_template(
        &self,
        name: &str,
        args: &[Type],
        ctx: ResolveCtx<'hir>,
        span: Span,
    ) -> (outcome: Result<(), HirError<&'hir str>>)
        ensures
            seen(outcome) == self@.check_template(name@, args@, ctx, span),
    {
        match (ctx.bounds, self.symbols.get_id(name)) {
            (Some(enclosing), Some(symbol)) => match get(&self.generic_structs, symbol) {
                Some(template) => self.check_bounds(template.generics, args, Some(enclosing), span),
                None => match get(&self.generic_enums, symbol) {
                    Some(template) => self.check_bounds(
                        template.generics,
                        args,
                        Some(enclosing),
                        span,
                    ),
                    None => Ok(()),
                },
            },
            _ => Ok(()),
        }
    }

    /// The types a list of annotations stands for.
    pub fn resolve_types(
        &mut self,
        types: &Vec<Spanned<ast::Type<'hir>>>,
        ctx: ResolveCtx<'hir>,
        fuel: u32,
    ) -> (outcome: Result<Vec<Type>, HirError<&'hir str>>)
        ensures
            (final(self)@, seen_list(outcome)) == old(self)@.resolve_types(
                types@,
                0,
                seq![],
                ctx,
                fuel as nat,
            ),
        decreases fuel, 9nat, types@, types@.len() + 1,
    {
        let mut resolved: Vec<Type> = Vec::new();
        let mut i: usize = 0;
        while i < types.len()
            invariant
                i <= types@.len(),
                old(self)@.resolve_types(types@, 0, seq![], ctx, fuel as nat)
                    == self@.resolve_types(types@, i as nat, resolved@, ctx, fuel as nat),
            decreases types@.len() - i,
        {
            match self.resolve_type(&types[i].value, types[i].span, ctx, fuel) {
                Err(error) => {
                    return Err(error);
                },
                Ok(typ) => {
                    resolved.push(typ);
                },
            }
            i += 1;
        }
        Ok(resolved)
    }

    /// The type an annotation stands for, poisoned if it is wrong.
    pub fn resolve_or_poison(
        &mut self,
        typ: &Spanned<ast::Type<'hir>>,
        ctx: ResolveCtx<'hir>,
        fuel: u32,
    ) -> (outcome: Result<Type, HirError<&'hir str>>)
        ensures
            (final(self)@, seen(outcome)) == old(self)@.resolve_or_poison(*typ, ctx, fuel as nat),
        decreases fuel, 9nat, *typ, 1nat,
    {
        match self.resolve_type(&typ.value, typ.span, ctx, fuel) {
            Err(error) => self.poison(error),
            Ok(typ) => Ok(typ),
        }
    }

    /// The types in `prefix` followed by those of the parameters.
    pub fn resolve_params(
        &mut self,
        params: &Vec<ast::Parameter<'hir>>,
        prefix: Vec<Type>,
        ctx: ResolveCtx<'hir>,
        fuel: u32,
    ) -> (outcome: Result<Vec<Type>, HirError<&'hir str>>)
        ensures
            (final(self)@, seen_list(outcome)) == old(self)@.resolve_params(
                params@,
                0,
                prefix@,
                ctx,
                fuel as nat,
            ),
        decreases fuel, 10nat, params@, params@.len() + 1,
    {
        let mut resolved = prefix;
        let mut i: usize = 0;
        while i < params.len()
            invariant
                i <= params@.len(),
                old(self)@.resolve_params(params@, 0, prefix@, ctx, fuel as nat)
                    == self@.resolve_params(params@, i as nat, resolved@, ctx, fuel as nat),
            decreases params@.len() - i,
        {
            match self.resolve_or_poison(&params[i].typ, ctx, fuel) {
                Err(error) => {
                    return Err(error);
                },
                Ok(typ) => {
                    resolved.push(typ);
                },
            }
            i += 1;
        }
        Ok(resolved)
    }

    /// The type a function returns.
    pub fn resolve_return_type(
        &mut self,
        return_type: &Option<Spanned<ast::Type<'hir>>>,
        ctx: ResolveCtx<'hir>,
        fuel: u32,
    ) -> (outcome: Result<Type, HirError<&'hir str>>)
        ensures
            (final(self)@, seen(outcome)) == old(self)@.resolve_return_type(
                *return_type,
                ctx,
                fuel as nat,
            ),
        decreases fuel, 10nat, *return_type, 0nat,
    {
        match return_type {
            None => Ok(Type::new(TypeKind::Unit)),
            Some(typ) => self.resolve_or_poison(typ, ctx, fuel),
        }
    }

    /// The instance of a generic struct or enum for the given arguments.
    ///
    /// Instances are told apart by their mangled names and made once.
    pub fn instantiate_generic(
        &mut self,
        name: &'hir str,
        args: &[Type],
        span: Span,
        fuel: u32,
    ) -> (outcome: Result<Type, HirError<&'hir str>>)
        ensures
            (final(self)@, seen(outcome)) == old(self)@.instantiate_generic(
                name@,
                args@,
                span,
                fuel as nat,
            ),
        decreases fuel, 8nat, args@, 0nat,
    {
        let mangled = self.mangle_generic(name, args);
        let instance = self.insert(mangled.as_str());
        if let Some(typ) = self.nominal_type(instance) {
            return Ok(typ);
        }
        if let Some(symbol) = self.symbols.get_id(name) {
            if let Some(template) = get(&self.generic_enums, symbol) {
                return self.instantiate_enum(template, instance, args, span, fuel);
            }
            if let Some(template) = get(&self.generic_structs, symbol) {
                return self.instantiate_struct(template, instance, args, span, fuel);
            }
        }
        Err(HirError::new(HirErrorKind::UnknownType { name }, span))
    }

    /// Adds an enum that has no variants yet.
    pub fn declare_enum(
        &mut self,
        name: SymbolId,
        repr: EnumRepr,
        decl_span: Span,
        generics: &Vec<SymbolId>,
    ) -> (id: EnumId)
        ensures
            (final(self)@, id) == old(self)@.declare_enum(name, repr, decl_span, generics@),
    {
        let id = EnumId(#[verifier::truncate] (self.enums.len() as u32), repr);
        let variants: Vec<EnumVariant> = Vec::new();
        let variants = self.arena.place_slice(&variants);
        let generics = self.arena.place_slice(generics);
        self.enum_map.insert(name.0, id);
        self.enums.push(
            Enum {
                id,
                name,
                decl_span,
                variants,
                repr,
                layout: Layout::new(0, 1, false),
                payload_offset: 0,
                generics,
            },
        );
        assert(Seq::<EnumVariant>::empty() =~= seq![]);
        id
    }

    /// Fills in the variants of an enum.
    pub fn set_variants(&mut self, index: usize, variants: &Vec<EnumVariant>)
        ensures
            final(self)@ == old(self)@.set_variants(index as int, variants@),
    {
        if index < self.enums.len() {
            let variants = self.arena.place_slice(variants);
            let definition = self.enums[index];
            self.enums.set(index, Enum { variants, ..definition });
        }
    }

    /// Adds a struct that has no fields yet.
    pub fn declare_struct(
        &mut self,
        name: SymbolId,
        decl_span: Span,
        repr: ast::StructRepr,
        generics: &Vec<SymbolId>,
    ) -> (id: StructId)
        ensures
            (final(self)@, id) == old(self)@.declare_struct(name, decl_span, repr, generics@),
    {
        let id = StructId(#[verifier::truncate] (self.structs.len() as u32));
        let fields: Vec<StructField> = Vec::new();
        let fields = self.arena.place_slice(&fields);
        let generics = self.arena.place_slice(generics);
        self.struct_map.insert(name.0, id);
        self.structs.push(
            Struct {
                id,
                name,
                decl_span,
                fields,
                repr,
                layout: Layout::new(0, 1, false),
                generics,
            },
        );
        assert(Seq::<StructField>::empty() =~= seq![]);
        id
    }

    /// Fills in the fields of a struct.
    pub fn set_fields(&mut self, index: usize, fields: &Vec<StructField>)
        ensures
            final(self)@ == old(self)@.set_fields(index as int, fields@),
    {
        if index < self.structs.len() {
            let fields = self.arena.place_slice(fields);
            let definition = self.structs[index];
            self.structs.set(index, Struct { fields, ..definition });
        }
    }

    fn instantiate_enum(
        &mut self,
        template: &'hir ast::Enum<'hir>,
        instance: SymbolId,
        args: &[Type],
        span: Span,
        fuel: u32,
    ) -> (outcome: Result<Type, HirError<&'hir str>>)
        ensures
            (final(self)@, seen(outcome)) == old(self)@.instantiate_enum(
                *template,
                instance,
                args@,
                span,
                fuel as nat,
            ),
        decreases fuel, 7nat, args@, 0nat,
    {
        if fuel == 0 {
            return Err(
                HirError::new(HirErrorKind::InstantiationTooDeep { name: template.name }, span),
            );
        }
        if let Err(error) = self.check_generic_args(template.name, template.generics, args, span) {
            return Err(error);
        }
        let repr = match resolve_enum_repr(&template.repr, template.variants) {
            Err(error) => return Err(error),
            Ok(repr) => repr,
        };
        let index: usize = self.enums.len();
        let generics = self.declared_names(template.generics, args);
        let id = self.declare_enum(instance, repr, Span { start: 0, end: 0 }, &generics);
        let env = build_substitution(template.generics, args);
        let ctx = ResolveCtx::items(self.arena, None, &env);
        let variants = match self.instance_variants(template.variants, instance, id, ctx, fuel) {
            Err(error) => return Err(error),
            Ok(variants) => variants,
        };
        self.set_variants(index, &variants);
        let receiver = Type::enumerable(id);
        match self.specialize_impls(template.name, instance, receiver, args, fuel) {
            Err(error) => Err(error),
            Ok(_) => Ok(receiver),
        }
    }

    fn instance_variants(
        &mut self,
        variants: &Vec<ast::EnumVariant<'hir>>,
        instance: SymbolId,
        id: EnumId,
        ctx: ResolveCtx<'hir>,
        fuel: u32,
    ) -> (outcome: Result<Vec<EnumVariant>, HirError<&'hir str>>)
        requires
            fuel > 0,
        ensures
            (final(self)@, seen_list(outcome)) == old(self)@.instance_variants(
                variants@,
                0,
                instance,
                id,
                0,
                seq![],
                seq![],
                ctx,
                fuel as nat,
            ),
        decreases fuel, 6nat, variants@, variants@.len() + 1,
    {
        let mut declared: Vec<SymbolId> = Vec::new();
        let mut lowered: Vec<EnumVariant> = Vec::new();
        let mut next_value: i64 = 0;
        let mut i: usize = 0;
        while i < variants.len()
            invariant
                i <= variants@.len(),
                fuel > 0,
                old(self)@.instance_variants(
                    variants@,
                    0,
                    instance,
                    id,
                    0,
                    seq![],
                    seq![],
                    ctx,
                    fuel as nat,
                ) == self@.instance_variants(
                    variants@,
                    i as nat,
                    instance,
                    id,
                    next_value,
                    declared@,
                    lowered@,
                    ctx,
                    fuel as nat,
                ),
            decreases variants@.len() - i,
        {
            let variant = variants[i];
            let symbol = self.insert(variant.name);
            if contains_symbol(&declared, symbol) {
                return Err(
                    HirError::new(
                        HirErrorKind::DuplicateVariant { name: variant.name },
                        variant.span,
                    ),
                );
            }
            let value: i64 = match variant.value {
                Some(value) => value,
                None => next_value,
            };
            let payload = match variant.payload {
                None => None,
                Some(typ) => match self.resolve_or_poison(&typ, ctx, fuel - 1) {
                    Err(error) => {
                        return Err(error);
                    },
                    Ok(typ) => Some(typ),
                },
            };
            self.enum_variants.insert(nested_key(instance, symbol), (id, value));
            declared.push(symbol);
            lowered.push(EnumVariant { name: symbol, value, payload });
            next_value = value.wrapping_add(1);
            i += 1;
        }
        Ok(lowered)
    }

    fn instantiate_struct(
        &mut self,
        template: &'hir ast::Struct<'hir>,
        instance: SymbolId,
        args: &[Type],
        span: Span,
        fuel: u32,
    ) -> (outcome: Result<Type, HirError<&'hir str>>)
        ensures
            (final(self)@, seen(outcome)) == old(self)@.instantiate_struct(
                *template,
                instance,
                args@,
                span,
                fuel as nat,
            ),
        decreases fuel, 7nat, args@, 0nat,
    {
        if fuel == 0 {
            return Err(
                HirError::new(HirErrorKind::InstantiationTooDeep { name: template.name }, span),
            );
        }
        if let Err(error) = self.check_generic_args(template.name, template.generics, args, span) {
            return Err(error);
        }
        let index: usize = self.structs.len();
        let generics = self.declared_names(template.generics, args);
        let id = self.declare_struct(
            instance,
            Span { start: 0, end: 0 },
            template.repr,
            &generics,
        );
        let env = build_substitution(template.generics, args);
        let ctx = ResolveCtx::items(self.arena, None, &env);
        let fields = match self.instance_fields(template.fields, ctx, fuel) {
            Err(error) => return Err(error),
            Ok(fields) => fields,
        };
        self.set_fields(index, &fields);
        let receiver = Type::structure(id);
        match self.specialize_impls(template.name, instance, receiver, args, fuel) {
            Err(error) => Err(error),
            Ok(_) => Ok(receiver),
        }
    }

    fn instance_fields(
        &mut self,
        fields: &Vec<ast::Field<'hir>>,
        ctx: ResolveCtx<'hir>,
        fuel: u32,
    ) -> (outcome: Result<Vec<StructField>, HirError<&'hir str>>)
        requires
            fuel > 0,
        ensures
            (final(self)@, seen_list(outcome)) == old(self)@.instance_fields(
                fields@,
                0,
                seq![],
                ctx,
                fuel as nat,
            ),
        decreases fuel, 6nat, fields@, fields@.len() + 1,
    {
        let mut lowered: Vec<StructField> = Vec::new();
        let mut i: usize = 0;
        while i < fields.len()
            invariant
                i <= fields@.len(),
                fuel > 0,
                old(self)@.instance_fields(fields@, 0, seq![], ctx, fuel as nat)
                    == self@.instance_fields(fields@, i as nat, lowered@, ctx, fuel as nat),
            decreases fields@.len() - i,
        {
            let field = fields[i];
            match self.resolve_or_poison(&field.typ, ctx, fuel - 1) {
                Err(error) => {
                    return Err(error);
                },
                Ok(typ) => {
                    let symbol = self.insert(field.name);
                    lowered.push(StructField { name: symbol, typ, offset: 0 });
                },
            }
            i += 1;
        }
        Ok(lowered)
    }

    /// Gives an instance the methods of every matching `impl` template.
    fn specialize_impls(
        &mut self,
        template_name: &str,
        instance: SymbolId,
        receiver: Type,
        args: &[Type],
        fuel: u32,
    ) -> (outcome: Result<(), HirError<&'hir str>>)
        ensures
            (final(self)@, seen(outcome)) == old(self)@.specialize_impls(
                old(self)@.generic_impls,
                0,
                template_name@,
                instance,
                receiver,
                args@,
                fuel as nat,
            ),
        decreases fuel, 5nat, old(self)@.generic_impls, old(self)@.generic_impls.len() + 1,
    {
        let impls = copy_refs(&self.generic_impls);
        let mut i: usize = 0;
        while i < impls.len()
            invariant
                i <= impls@.len(),
                impls@ == old(self)@.generic_impls,
                old(self)@.specialize_impls(
                    impls@,
                    0,
                    template_name@,
                    instance,
                    receiver,
                    args@,
                    fuel as nat,
                ) == self@.specialize_impls(
                    impls@,
                    i as nat,
                    template_name@,
                    instance,
                    receiver,
                    args@,
                    fuel as nat,
                ),
            decreases impls@.len() - i,
        {
            let implementation = impls[i];
            if text_eq(implementation.name, template_name) {
                if let Some(interface) = implementation.interface {
                    let symbol = self.insert(interface);
                    self.add_impl(receiver, symbol);
                }
                let env = build_impl_substitution(implementation, args);
                if let Err(error) = self.specialize_methods(
                    implementation,
                    instance,
                    receiver,
                    &env,
                    fuel,
                ) {
                    return Err(error);
                }
            }
            i += 1;
        }
        Ok(())
    }

    /// The canonical name of a method of `owner`.
    pub fn method_name(&self, owner: &str, interface: Option<&'hir str>, method: &str) -> (name:
        String)
        ensures
            name@ == self@.method_name(owner@, interface, method@),
    {
        match interface {
            Some(interface) => self.mangler.interface_item(owner, interface, method),
            None => self.mangler.scoped_item(owner, method),
        }
    }

    fn specialize_methods(
        &mut self,
        implementation: &'hir ast::Impl<'hir>,
        instance: SymbolId,
        receiver: Type,
        env: &Vec<(&'hir str, Type)>,
        fuel: u32,
    ) -> (outcome: Result<(), HirError<&'hir str>>)
        ensures
            (final(self)@, seen(outcome)) == old(self)@.specialize_methods(
                *implementation,
                0,
                instance,
                receiver,
                env@,
                fuel as nat,
            ),
        decreases fuel, 4nat, *implementation, implementation.methods@.len() + 1,
    {
        if fuel == 0 {
            return Ok(());
        }
        let methods = implementation.methods;
        let mut i: usize = 0;
        while i < methods.len()
            invariant
                i <= methods@.len(),
                methods == implementation.methods,
                fuel > 0,
                old(self)@.specialize_methods(
                    *implementation,
                    0,
                    instance,
                    receiver,
                    env@,
                    fuel as nat,
                ) == self@.specialize_methods(
                    *implementation,
                    i as nat,
                    instance,
                    receiver,
                    env@,
                    fuel as nat,
                ),
            decreases methods@.len() - i,
        {
            let method = methods[i];
            if let Err(error) = self.specialize_method(
                implementation,
                method,
                instance,
                receiver,
                env,
                fuel,
            ) {
                return Err(error);
            }
            i += 1;
        }
        Ok(())
    }
}

impl<'hir> Scope<'hir> {
    fn specialize_method(
        &mut self,
        implementation: &'hir ast::Impl<'hir>,
        method: &'hir ast::Function<'hir>,
        instance: SymbolId,
        receiver: Type,
        env: &Vec<(&'hir str, Type)>,
        fuel: u32,
    ) -> (outcome: Result<(), HirError<&'hir str>>)
        requires
            fuel > 0,
        ensures
            (final(self)@, seen(outcome)) == old(self)@.specialize_method(
                *implementation,
                method,
                instance,
                receiver,
                env@,
                fuel as nat,
            ),
        decreases fuel, 3nat, *implementation, 0nat,
    {
        let method_symbol = self.insert(method.name);
        let name = self.method_name(
            self.symbols.name(instance),
            implementation.interface,
            method.name,
        );
        let mangled = self.insert(name.as_str());
        let all = extended_env(env, method.generics);
        let ctx = ResolveCtx::items(self.arena, Some(receiver), &all);
        let mut first: Vec<Type> = Vec::new();
        if let Some(r) = method.receiver {
            first.push(receiver_param_type(receiver, r.mutable));
        }
        assert(first@ =~= (match method.receiver {
            Some(r) => seq![receiver_param_type(receiver, r.mutable)],
            None => seq![],
        }));
        let params = match self.resolve_params(method.params, first, ctx, fuel - 1) {
            Err(error) => return Err(error),
            Ok(params) => params,
        };
        let return_type = match self.resolve_return_type(&method.return_type, ctx, fuel - 1) {
            Err(error) => return Err(error),
            Ok(return_type) => return_type,
        };
        self.add_instance_method(
            implementation,
            method,
            method_symbol,
            mangled,
            receiver,
            &params,
            return_type,
            env,
        );
        Ok(())
    }

    fn add_instance_method(
        &mut self,
        implementation: &'hir ast::Impl<'hir>,
        method: &'hir ast::Function<'hir>,
        method_symbol: SymbolId,
        mangled: SymbolId,
        receiver: Type,
        params: &Vec<Type>,
        return_type: Type,
        env: &Vec<(&'hir str, Type)>,
    )
        ensures
            final(self)@ == old(self)@.add_instance_method(
                *implementation,
                method,
                method_symbol,
                mangled,
                receiver,
                params@,
                return_type,
                env@,
            ),
    {
        let intrinsic = intrinsic_method(false, implementation.name, method.name);
        let kind = match (intrinsic, method.receiver) {
            (Some(i), _) => FunctionKind::Intrinsic(i),
            (None, Some(r)) => FunctionKind::Method(
                Method { receiver, name: method_symbol, mutable: r.mutable },
            ),
            (None, None) => FunctionKind::Free,
        };
        let params = self.arena.place_slice(params);
        let id = self.push_signature(
            FunctionSignature {
                name: mangled,
                params,
                return_type,
                kind,
                is_const: method.is_const,
            },
        );
        if method.receiver.is_some() {
            self.methods.insert(member_key(receiver, method_symbol), id);
        } else {
            self.functions.insert(mangled.0, id);
        }
        if intrinsic.is_none() {
            let env = self.arena.place_slice(env);
            self.generic_fns.insert(id.0, method);
            self.generic_fn_envs.insert(id.0, env);
        }
    }

    /// Gives a slice type the methods of `impl [T]` blocks, once.
    pub fn specialize_slice_impls(&mut self, slice: Type, fuel: u32) -> (outcome: Result<
        (),
        HirError<&'hir str>,
    >)
        ensures
            (final(self)@, seen(outcome)) == old(self)@.specialize_slice_impls(slice, fuel as nat),
    {
        match slice.kind() {
            TypeKind::Slice { element, .. } => {
                let canonical = Type::slice(element, false);
                if contains_type(&self.specialized_slices, canonical) {
                    return Ok(());
                }
                self.specialized_slices.push(canonical);
                let mut args: Vec<Type> = Vec::new();
                args.push(Type::from_target(element));
                assert(args@ =~= seq![Type::from_target(element)]);
                let mangled = self.mangle_generic("slice", args.as_slice());
                let instance = self.insert(mangled.as_str());
                self.specialize_impls("[]", instance, canonical, args.as_slice(), fuel)
            },
            _ => Ok(()),
        }
    }
}

fn contains_type(types: &Vec<Type>, typ: Type) -> (contained: bool)
    ensures
        contained == types@.contains(typ),
{
    let mut i: usize = 0;
    while i < types.len()
        invariant
            i <= types@.len(),
            forall|j: int| 0 <= j < i ==> types@[j] != typ,
        decreases types@.len() - i,
    {
        if types[i] == typ {
            assert(types@[i as int] == typ);
            return true;
        }
        i += 1;
    }
    false
}

/// The entries of `env` followed by every parameter standing for itself.
fn extended_env<'hir>(env: &Vec<(&'hir str, Type)>, generics: &Vec<GenericBound<'hir>>) -> (all: Vec<
    (&'hir str, Type),
>)
    ensures
        all@ == env@ + param_env(generics@),
{
    let mut all: Vec<(&'hir str, Type)> = Vec::new();
    let mut i: usize = 0;
    while i < env.len()
        invariant
            i <= env@.len(),
            all@ =~= env@.take(i as int),
        decreases env@.len() - i,
    {
        all.push(env[i]);
        i += 1;
    }
    let mut own = generic_param_env(generics);
    all.append(&mut own);
    assert(all@ =~= env@ + param_env(generics@));
    all
}

fn self_type_of<'hir>(ctx: ResolveCtx<'hir>, span: Span) -> (outcome: Result<
    Type,
    HirError<&'hir str>,
>)
    ensures
        seen(outcome) == self_meaning(ctx, span),
{
    match ctx.self_type {
        Some(typ) => Ok(typ),
        None => if ctx.open_self {
            Ok(Type::new(TypeKind::SelfType))
        } else {
            Err(HirError::new(HirErrorKind::UnknownType { name: "Self" }, span))
        },
    }
}

pub fn contains_symbol(symbols: &Vec<SymbolId>, symbol: SymbolId) -> (contained: bool)
    ensures
        contained == symbols@.contains(symbol),
{
    let mut i: usize = 0;
    while i < symbols.len()
        invariant
            i <= symbols@.len(),
            forall|j: int| 0 <= j < i ==> symbols@[j] != symbol,
        decreases symbols@.len() - i,
    {
        if symbols[i] == symbol {
            assert(symbols@[i as int] == symbol);
            return true;
        }
        i += 1;
    }
    false
}

fn copy_refs<'a, T>(items: &Vec<&'a T>) -> (copy: Vec<&'a T>)
    ensures
        copy@ == items@,
{
    let mut copy: Vec<&'a T> = Vec::new();
    let mut i: usize = 0;
    while i < items.len()
        invariant
            i <= items@.len(),
            copy@ =~= items@.take(i as int),
        decreases items@.len() - i,
    {
        copy.push(items[i]);
        i += 1;
    }
    assert(copy@ =~= items@);
    copy
}

} // verus!
