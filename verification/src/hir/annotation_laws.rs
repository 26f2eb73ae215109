//! What type annotations and generic arguments mean.

use crate::ast;
use crate::ast::Span;
use crate::hir::body::Body;
use crate::hir::monomorph::shape::type_word;
use crate::hir::scope::{env_get, FunctionSignature, Names};
use crate::hir::tree::FunctionId;
use crate::hir::type_resolver::ResolveCtx;
use crate::hir::types::{Type, TypeKind};
use vstd::prelude::*;

verus! {

/// A reference annotation stands for a reference to what its inside stands for, and so does a slice;
/// both may be written through just where they say so. An array annotation stands for an array of
/// its length.
pub proof fn lemma_composed_annotation<'hir>(
    names: Names<'hir>,
    inner: ast::Type<'hir>,
    mutable: bool,
    len: u64,
    span: Span,
    ctx: ResolveCtx<'hir>,
    fuel: nat,
)
    requires
        names.resolve_type(inner, span, ctx, fuel).1 is Ok,
        len <= u32::MAX,
    ensures
        ({
            let (next, outcome) = names.resolve_type(inner, span, ctx, fuel);
            let typ = outcome->Ok_0;
            let plain = !(typ.kind() is Ref) && !(typ.kind() is Slice) && typ.fits_target();
            &&& plain ==> match names.resolve_type(
                ast::Type::Ref(&inner, mutable),
                span,
                ctx,
                fuel,
            ).1 {
                Ok(whole) => match whole.kind() {
                    TypeKind::Ref { mutable: flag, to } => flag == mutable && Type::from_target(
                        to,
                    ).kind() == typ.kind(),
                    _ => false,
                },
                Err(_) => false,
            }
            &&& plain ==> match names.resolve_type(
                ast::Type::Slice(&inner, mutable),
                span,
                ctx,
                fuel,
            ).1 {
                Ok(whole) => match whole.kind() {
                    TypeKind::Slice { mutable: flag, element } => flag == mutable
                        && Type::from_target(element).kind() == typ.kind(),
                    _ => false,
                },
                Err(_) => false,
            }
            &&& next.arrays.wf() && next.arrays.types.len() < u32::MAX ==> {
                let (after, whole) = names.resolve_type(
                    ast::Type::Array(&inner, len),
                    span,
                    ctx,
                    fuel,
                );
                match whole {
                    Ok(whole) => match whole.kind() {
                        TypeKind::Array(id) => match after.arrays.find(id) {
                            Some(array) => array.element == typ && array.len == len,
                            None => false,
                        },
                        _ => false,
                    },
                    Err(_) => false,
                }
            }
        }),
{
    let (next, outcome) = names.resolve_type(inner, span, ctx, fuel);
    let typ = outcome->Ok_0;
    if !(typ.kind() is Ref) && !(typ.kind() is Slice) && typ.fits_target() {
        typ.lemma_pointed(mutable);
    }
    if next.arrays.wf() && next.arrays.types.len() < u32::MAX {
        let (arrays, id) = next.arrays.intern(typ, len as u32);
        Type::lemma_round_trip(TypeKind::Array(id));
    }
}

/// A name stands for the generic argument of that name, or else for the struct or enum.
pub proof fn lemma_named_annotation<'hir>(
    names: Names<'hir>,
    name: &'hir str,
    span: Span,
    ctx: ResolveCtx<'hir>,
    fuel: nat,
)
    ensures
        ({
            let (after, outcome) = names.resolve_type(ast::Type::Named(name), span, ctx, fuel);
            &&& after == names
            &&& match env_get(ctx.env@, name@) {
                Some(typ) => outcome matches Ok(found) && found == typ,
                None => match names.get_id(name@) {
                    None => outcome is Err,
                    Some(symbol) => match outcome {
                        Ok(typ) => match typ.kind() {
                            TypeKind::Struct(id) => names.struct_map.contains_key(symbol.0)
                                && names.struct_map[symbol.0] == id,
                            TypeKind::Enum(id) => names.enum_map.contains_key(symbol.0)
                                && names.enum_map[symbol.0] == id,
                            _ => false,
                        },
                        Err(_) => !names.struct_map.contains_key(symbol.0)
                            && !names.enum_map.contains_key(symbol.0),
                    },
                },
            }
        }),
{
    if let Some(symbol) = names.get_id(name@) {
        if names.struct_map.contains_key(symbol.0) {
            Type::lemma_round_trip(TypeKind::Struct(names.struct_map[symbol.0]));
        }
        if names.enum_map.contains_key(symbol.0) {
            Type::lemma_round_trip(TypeKind::Enum(names.enum_map[symbol.0]));
        }
    }
}

/// What a type with a keyword of its own stands for is shown by that keyword.
pub proof fn lemma_keyword_annotation<'hir>(
    names: Names<'hir>,
    typ: ast::Type<'hir>,
    span: Span,
    ctx: ResolveCtx<'hir>,
    fuel: nat,
)
    requires
        type_word(typ) is Some,
    ensures
        match names.resolve_type(typ, span, ctx, fuel) {
            (after, Ok(found)) => after == names && match typ {
                ast::Type::Str => found.kind() is Str,
                ast::Type::String => found.kind() is String,
                ast::Type::Unit => found.kind() is Unit,
                _ => crate::hir::display::type_text(found) == type_word(typ)->0,
            },
            _ => false,
        },
{
    Type::lemma_round_trip(TypeKind::I8);
    Type::lemma_round_trip(TypeKind::U8);
    Type::lemma_round_trip(TypeKind::I16);
    Type::lemma_round_trip(TypeKind::U16);
    Type::lemma_round_trip(TypeKind::I32);
    Type::lemma_round_trip(TypeKind::U32);
    Type::lemma_round_trip(TypeKind::I64);
    Type::lemma_round_trip(TypeKind::U64);
    Type::lemma_round_trip(TypeKind::F32);
    Type::lemma_round_trip(TypeKind::F64);
    Type::lemma_round_trip(TypeKind::Bool);
    Type::lemma_round_trip(TypeKind::Uptr);
    Type::lemma_round_trip(TypeKind::Iptr);
    Type::lemma_round_trip(TypeKind::Char);
    Type::lemma_round_trip(TypeKind::Str);
    Type::lemma_round_trip(TypeKind::String);
    Type::lemma_round_trip(TypeKind::Unit);
    Type::lemma_round_trip(TypeKind::Never);
}

/// A generic parameter becomes the argument at its position, a reference to one a reference to that
/// argument; a type without parameters stays.
pub proof fn lemma_substituted(typ: Type, args: Seq<Type>)
    ensures
        match typ.kind() {
            TypeKind::GenericParam(i) => typ.subst_spec(args) == if i < args.len() {
                args[i as int]
            } else {
                typ
            },
            TypeKind::Ref { mutable, to } => match Type::from_target(to).kind() {
                TypeKind::GenericParam(i) => i < args.len() && args[i as int].fits_target() && !(
                args[i as int].kind() is Ref) && !(args[i as int].kind() is Slice) ==> match (
                typ.subst_spec(args).kind()) {
                    TypeKind::Ref { mutable: flag, to } => flag == mutable && Type::from_target(
                        to,
                    ).kind() == args[i as int].kind(),
                    _ => false,
                },
                _ => true,
            },
            TypeKind::Slice { .. } => true,
            _ => typ.subst_spec(args) == typ,
        },
{
    if let TypeKind::Ref { mutable, to } = typ.kind() {
        if let TypeKind::GenericParam(i) = Type::from_target(to).kind() {
            if i < args.len() {
                let arg = args[i as int];
                if arg.fits_target() && !(arg.kind() is Ref) && !(arg.kind() is Slice) {
                    arg.lemma_pointed(mutable);
                }
            }
        }
    }
}

/// A call of a generic function has the type of the function's result with the generic arguments of
/// the call in it: those that are given, or those that its arguments bind.
pub proof fn lemma_generic_call<'hir>(
    body: Body<'hir>,
    id: FunctionId,
    signature: FunctionSignature<'hir>,
    template: ast::Function<'hir>,
    args: Seq<ast::Expression<'hir>>,
    type_args: Seq<ast::Spanned<ast::Type<'hir>>>,
    span: Span,
)
    requires
        body.lower_generic_call(id, signature, template, args, type_args, span).1 is Ok,
    ensures
        ({
            let value = body.lower_generic_call(id, signature, template, args, type_args, span).1->Ok_0;
            let start = crate::hir::expr::Arguments { exprs: seq![], types: seq![] };
            let (state, lowered) = body.lower_all(args, 0, start);
            &&& args.len() == signature.params@.len()
            &&& lowered is Ok
            &&& type_args.len() == 0 ==> value.typ == signature.return_type.subst_spec(
                crate::hir::typing::inferred_args(
                    signature.params@,
                    lowered->Ok_0.types,
                    template.generics@.len(),
                ),
            )
            &&& type_args.len() > 0 ==> match state.turbofish(type_args) {
                (_, Ok(given)) => value.typ == signature.return_type.subst_spec(given),
                _ => false,
            }
        }),
{
}

} // verus!
