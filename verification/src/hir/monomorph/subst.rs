//! Substitution of type parameters.

use crate::arena::Arena;
use crate::ast::{Span, Spanned, Type};
use crate::hir::monomorph::shape::{
    arg_places, arg_shapes, copy_name, mangle, optional_shape, places, shape, shape_at, shapes_at,
    Places, Shape, ShapeAt,
};
use crate::text::text_eq;
use vstd::prelude::*;

verus! {

/// What type parameters and variables stand for: of each name the last entry counts.
pub type Env<'s> = Vec<(&'s str, Type<'s>)>;

/// An environment as contracts see it.
pub type Bindings = Seq<(Seq<char>, Shape)>;

pub open spec fn env_view(env: Seq<(&str, Type)>) -> Bindings {
    Seq::new(env.len(), |i: int| (env[i].0@, shape(env[i].1)))
}

/// What a name stands for.
pub open spec fn bound(env: Bindings, name: Seq<char>) -> Option<Shape>
    decreases env.len(),
{
    if env.len() == 0 {
        None
    } else if env.last().0 == name {
        Some(env.last().1)
    } else {
        bound(env.drop_last(), name)
    }
}

/// The entry of a name.
pub open spec fn entry<'s>(env: Seq<(&'s str, Type<'s>)>, name: Seq<char>) -> Option<Type<'s>>
    decreases env.len(),
{
    if env.len() == 0 {
        None
    } else if env.last().0@ == name {
        Some(env.last().1)
    } else {
        entry(env.drop_last(), name)
    }
}

/// What a name stands for.
pub fn lookup<'s>(env: &Env<'s>, name: &str) -> (typ: Option<Type<'s>>)
    ensures
        typ == entry(env@, name@),
        bound(env_view(env@), name@) == (match typ {
            Some(typ) => Some(shape(typ)),
            None => None,
        }),
{
    let ghost all = env_view(env@);
    let mut i: usize = env.len();
    assert(all.take(i as int) =~= all);
    assert(env@.take(i as int) =~= env@);
    while i > 0
        invariant
            i <= env@.len(),
            all == env_view(env@),
            entry(env@.take(i as int), name@) == entry(env@, name@),
            bound(all.take(i as int), name@) == bound(all, name@),
        decreases i,
    {
        i -= 1;
        assert(all.take(i + 1).drop_last() =~= all.take(i as int));
        assert(env@.take(i + 1).drop_last() =~= env@.take(i as int));
        if text_eq(env[i].0, name) {
            return Some(env[i].1);
        }
    }
    None
}

/// Adds an entry to an environment.
pub fn bind<'s>(env: &mut Env<'s>, name: &'s str, typ: Type<'s>)
    ensures
        env_view(final(env)@) == env_view(old(env)@).push((name@, shape(typ))),
{
    env.push((name, typ));
    assert(env_view(env@) =~= env_view(old(env)@).push((name@, shape(typ))));
}

/// A copy of an environment.
pub fn copy_env<'s>(env: &Env<'s>) -> (copy: Env<'s>)
    ensures
        copy@ == env@,
{
    let mut copy: Env<'s> = Vec::new();
    let mut i: usize = 0;
    while i < env.len()
        invariant
            i <= env@.len(),
            copy@ == env@.take(i as int),
        decreases env@.len() - i,
    {
        copy.push(env[i]);
        assert(env@.take(i + 1) =~= env@.take(i as int).push(env@[i as int]));
        i += 1;
    }
    assert(env@.take(i as int) =~= env@);
    copy
}

/// A type with its parameters replaced, and every use of a generic type replaced by the name of
/// its copy.
pub open spec fn subst_shape(typ: Shape, env: Bindings) -> Shape
    decreases typ, 0nat,
{
    match typ {
        Shape::Named(name) => match bound(env, name) {
            Some(typ) => typ,
            None => typ,
        },
        Shape::Ref(inner, mutable) => Shape::Ref(Box::new(subst_shape(*inner, env)), mutable),
        Shape::Array(inner, len) => Shape::Array(Box::new(subst_shape(*inner, env)), len),
        Shape::Slice(inner, mutable) => Shape::Slice(Box::new(subst_shape(*inner, env)), mutable),
        Shape::Generic(name, args) => Shape::Named(copy_name(name, subst_shapes(args, env))),
        _ => typ,
    }
}

pub open spec fn subst_shapes(types: Seq<Shape>, env: Bindings) -> Seq<Shape>
    decreases types, 1nat,
{
    Seq::new(
        types.len(),
        |i: int|
            if 0 <= i < types.len() {
                subst_shape(types[i], env)
            } else {
                arbitrary()
            },
    )
}

pub open spec fn subst_at(typ: ShapeAt, env: Bindings) -> ShapeAt {
    ShapeAt { shape: subst_shape(typ.shape, env), span: typ.span }
}

pub open spec fn subst_all_at(types: Seq<ShapeAt>, env: Bindings) -> Seq<ShapeAt> {
    Seq::new(types.len(), |i: int| subst_at(types[i], env))
}

pub open spec fn subst_optional_at(typ: Option<ShapeAt>, env: Bindings) -> Option<ShapeAt> {
    match typ {
        Some(typ) => Some(subst_at(typ, env)),
        None => None,
    }
}

/// A type with its parameters replaced, and uses of generic types left as they are.
pub open spec fn subst_simple(typ: Shape, env: Bindings) -> Shape
    decreases typ, 0nat,
{
    match typ {
        Shape::Named(name) => match bound(env, name) {
            Some(typ) => typ,
            None => typ,
        },
        Shape::Ref(inner, mutable) => Shape::Ref(Box::new(subst_simple(*inner, env)), mutable),
        Shape::Array(inner, len) => Shape::Array(Box::new(subst_simple(*inner, env)), len),
        Shape::Slice(inner, mutable) => Shape::Slice(Box::new(subst_simple(*inner, env)), mutable),
        Shape::Generic(name, args) => Shape::Generic(name, subst_simple_all(args, env)),
        _ => typ,
    }
}

pub open spec fn subst_simple_all(types: Seq<Shape>, env: Bindings) -> Seq<Shape>
    decreases types, 1nat,
{
    Seq::new(
        types.len(),
        |i: int|
            if 0 <= i < types.len() {
                subst_simple(types[i], env)
            } else {
                arbitrary()
            },
    )
}

/// Where arguments stand once the parameters of a type are replaced. A use of a generic type keeps
/// its arguments, each where it stands, unless it is replaced by the name of its copy.
pub open spec fn subst_places<'s>(
    typ: Type<'s>,
    env: Seq<(&'s str, Type<'s>)>,
    named: bool,
) -> Places
    decreases typ, 0nat,
{
    match typ {
        Type::Named(name) => match entry(env, name@) {
            Some(typ) => places(typ),
            None => Places::Nowhere,
        },
        Type::Ref(inner, mutable) => Places::Inside(Box::new(subst_places(*inner, env, named))),
        Type::Array(inner, len) => Places::Inside(Box::new(subst_places(*inner, env, named))),
        Type::Slice(inner, mutable) => Places::Inside(Box::new(subst_places(*inner, env, named))),
        Type::Generic(name, args) => if named {
            Places::Nowhere
        } else {
            Places::Args(subst_arg_places(args@, env, named))
        },
        _ => Places::Nowhere,
    }
}

pub open spec fn subst_arg_places<'s>(
    args: Seq<Spanned<Type<'s>>>,
    env: Seq<(&'s str, Type<'s>)>,
    named: bool,
) -> Seq<(Span, Places)>
    decreases args, 1nat,
{
    Seq::new(
        args.len(),
        |i: int|
            if 0 <= i < args.len() {
                (args[i].span, subst_places(args[i].value, env, named))
            } else {
                arbitrary()
            },
    )
}

/// Replaces the type parameters of a type and names the copies of generic types.
pub fn subst_type<'s>(typ: &Type<'s>, env: &Env<'s>, arena: &'s Arena) -> (out: Type<'s>)
    ensures
        shape(out) == subst_shape(shape(*typ), env_view(env@)),
        places(out) == subst_places(*typ, env@, true),
    decreases typ, 0nat,
{
    match *typ {
        Type::Named(name) => match lookup(env, name) {
            Some(typ) => typ,
            None => *typ,
        },
        Type::Ref(inner, mutable) => Type::Ref(arena.place(subst_type(inner, env, arena)), mutable),
        Type::Array(inner, len) => Type::Array(arena.place(subst_type(inner, env, arena)), len),
        Type::Slice(inner, mutable) => Type::Slice(
            arena.place(subst_type(inner, env, arena)),
            mutable,
        ),
        Type::Generic(name, args) => {
            let args = subst_type_args(args, env, arena);
            Type::Named(arena.place_str(mangle(name, &args).as_str()))
        },
        _ => *typ,
    }
}

/// Replaces type parameters in a list of types.
pub fn subst_type_args<'s>(
    args: &Vec<Spanned<Type<'s>>>,
    env: &Env<'s>,
    arena: &'s Arena,
) -> (out: Vec<Spanned<Type<'s>>>)
    ensures
        arg_shapes(out@) == subst_shapes(arg_shapes(args@), env_view(env@)),
        shapes_at(out@) == subst_all_at(shapes_at(args@), env_view(env@)),
        arg_places(out@) == subst_arg_places(args@, env@, true),
    decreases args@, 1nat,
{
    let ghost view = env_view(env@);
    let mut out: Vec<Spanned<Type<'s>>> = Vec::new();
    let mut i: usize = 0;
    while i < args.len()
        invariant
            i <= args@.len(),
            out@.len() == i,
            view == env_view(env@),
            forall|j: int|
                0 <= j < i ==> shape((#[trigger] out@[j]).value) == subst_shape(
                    shape(args@[j].value),
                    view,
                ) && out@[j].span == args@[j].span && places(out@[j].value) == subst_places(
                    args@[j].value,
                    env@,
                    true,
                ),
        decreases args@.len() - i,
    {
        assert(decreases_to!(args@ => args@[i as int]));
        let value = subst_type(&args[i].value, env, arena);
        out.push(Spanned { value, span: args[i].span });
        i += 1;
    }
    assert(arg_shapes(out@) =~= subst_shapes(arg_shapes(args@), view));
    assert(shapes_at(out@) =~= subst_all_at(shapes_at(args@), view));
    assert(arg_places(out@) =~= subst_arg_places(args@, env@, true));
    out
}

pub fn subst_spanned_type<'s>(typ: &Spanned<Type<'s>>, env: &Env<'s>, arena: &'s Arena) -> (out:
    Spanned<Type<'s>>)
    ensures
        shape_at(out) == subst_at(shape_at(*typ), env_view(env@)),
        places(out.value) == subst_places(typ.value, env@, true),
{
    Spanned { value: subst_type(&typ.value, env, arena), span: typ.span }
}

pub fn subst_optional_type<'s>(
    typ: &Option<Spanned<Type<'s>>>,
    env: &Env<'s>,
    arena: &'s Arena,
) -> (out: Option<Spanned<Type<'s>>>)
    ensures
        optional_shape(out) == subst_optional_at(optional_shape(*typ), env_view(env@)),
        (typ, out) matches (Some(typ), Some(out)) ==> places(out.value) == subst_places(
            typ.value,
            env@,
            true,
        ),
{
    match typ {
        Some(typ) => Some(subst_spanned_type(typ, env, arena)),
        None => None,
    }
}

/// Replaces the type parameters of a type without naming copies.
pub fn subst_type_simple<'s>(typ: &Type<'s>, env: &Env<'s>, arena: &'s Arena) -> (out: Type<'s>)
    ensures
        shape(out) == subst_simple(shape(*typ), env_view(env@)),
        places(out) == subst_places(*typ, env@, false),
    decreases typ, 0nat,
{
    match *typ {
        Type::Named(name) => match lookup(env, name) {
            Some(typ) => typ,
            None => *typ,
        },
        Type::Ref(inner, mutable) => Type::Ref(
            arena.place(subst_type_simple(inner, env, arena)),
            mutable,
        ),
        Type::Array(inner, len) => Type::Array(
            arena.place(subst_type_simple(inner, env, arena)),
            len,
        ),
        Type::Slice(inner, mutable) => Type::Slice(
            arena.place(subst_type_simple(inner, env, arena)),
            mutable,
        ),
        Type::Generic(name, args) => {
            let args = subst_simple_args(args, env, arena);
            Type::Generic(name, arena.place(args))
        },
        _ => *typ,
    }
}

fn subst_simple_args<'s>(args: &Vec<Spanned<Type<'s>>>, env: &Env<'s>, arena: &'s Arena) -> (out:
    Vec<Spanned<Type<'s>>>)
    ensures
        arg_shapes(out@) == subst_simple_all(arg_shapes(args@), env_view(env@)),
        arg_places(out@) == subst_arg_places(args@, env@, false),
    decreases args@, 1nat,
{
    let ghost view = env_view(env@);
    let mut out: Vec<Spanned<Type<'s>>> = Vec::new();
    let mut i: usize = 0;
    while i < args.len()
        invariant
            i <= args@.len(),
            out@.len() == i,
            view == env_view(env@),
            forall|j: int|
                0 <= j < i ==> shape((#[trigger] out@[j]).value) == subst_simple(
                    shape(args@[j].value),
                    view,
                ) && out@[j].span == args@[j].span && places(out@[j].value) == subst_places(
                    args@[j].value,
                    env@,
                    false,
                ),
        decreases args@.len() - i,
    {
        assert(decreases_to!(args@ => args@[i as int]));
        let value = subst_type_simple(&args[i].value, env, arena);
        out.push(Spanned { value, span: args[i].span });
        i += 1;
    }
    assert(arg_shapes(out@) =~= subst_simple_all(arg_shapes(args@), view));
    assert(arg_places(out@) =~= subst_arg_places(args@, env@, false));
    out
}

} // verus!
