//! Type annotations as contracts see them, and the names of concrete copies.

use crate::ast::{Span, Spanned, Type};
use crate::text::{decimal, push_decimal, push_text, text_eq};
use vstd::prelude::*;

verus! {

/// A type annotation, wherever it stands.
pub ghost enum Shape {
    /// A type with a keyword of its own
    Word(Seq<char>),
    SelfType,
    RefSelf,
    Named(Seq<char>),
    Ref(Box<Shape>, bool),
    Array(Box<Shape>, u64),
    Slice(Box<Shape>, bool),
    Generic(Seq<char>, Seq<Shape>),
}

/// A type annotation and where it stands.
pub ghost struct ShapeAt {
    pub shape: Shape,
    pub span: Span,
}

/// Where the arguments of a type annotation stand, at every depth.
pub ghost enum Places {
    /// A type without arguments
    Nowhere,
    /// What a reference, an array or a slice is of
    Inside(Box<Places>),
    Args(Seq<(Span, Places)>),
}

/// Where the arguments of a type stand.
pub open spec fn places(typ: Type) -> Places
    decreases typ, 0nat,
{
    match typ {
        Type::Ref(inner, mutable) => Places::Inside(Box::new(places(*inner))),
        Type::Array(inner, len) => Places::Inside(Box::new(places(*inner))),
        Type::Slice(inner, mutable) => Places::Inside(Box::new(places(*inner))),
        Type::Generic(name, args) => Places::Args(arg_places(args@)),
        _ => Places::Nowhere,
    }
}

pub open spec fn arg_places(args: Seq<Spanned<Type>>) -> Seq<(Span, Places)>
    decreases args, 1nat,
{
    Seq::new(
        args.len(),
        |i: int|
            if 0 <= i < args.len() {
                (args[i].span, places(args[i].value))
            } else {
                arbitrary()
            },
    )
}

/// The word for a type that has one.
pub open spec fn type_word(typ: Type) -> Option<Seq<char>> {
    match typ {
        Type::I8 => Some("i8"@),
        Type::U8 => Some("u8"@),
        Type::I16 => Some("i16"@),
        Type::U16 => Some("u16"@),
        Type::I32 => Some("i32"@),
        Type::U32 => Some("u32"@),
        Type::I64 => Some("i64"@),
        Type::U64 => Some("u64"@),
        Type::F32 => Some("f32"@),
        Type::F64 => Some("f64"@),
        Type::Bool => Some("bool"@),
        Type::Uptr => Some("uptr"@),
        Type::Iptr => Some("iptr"@),
        Type::Char => Some("char"@),
        Type::Str => Some("str"@),
        Type::String => Some("string"@),
        Type::Unit => Some("unit"@),
        Type::Never => Some("!"@),
        _ => None,
    }
}

pub open spec fn shape(typ: Type) -> Shape
    decreases typ, 0nat,
{
    match typ {
        Type::SelfType => Shape::SelfType,
        Type::RefSelf => Shape::RefSelf,
        Type::Named(name) => Shape::Named(name@),
        Type::Ref(inner, mutable) => Shape::Ref(Box::new(shape(*inner)), mutable),
        Type::Array(inner, len) => Shape::Array(Box::new(shape(*inner)), len),
        Type::Slice(inner, mutable) => Shape::Slice(Box::new(shape(*inner)), mutable),
        Type::Generic(name, args) => Shape::Generic(name@, arg_shapes(args@)),
        _ => match type_word(typ) {
            Some(word) => Shape::Word(word),
            None => Shape::SelfType,
        },
    }
}

/// The arguments of a generic type.
pub open spec fn arg_shapes(args: Seq<Spanned<Type>>) -> Seq<Shape>
    decreases args, 1nat,
{
    Seq::new(
        args.len(),
        |i: int|
            if 0 <= i < args.len() {
                shape(args[i].value)
            } else {
                arbitrary()
            },
    )
}

pub open spec fn type_shapes(types: Seq<Type>) -> Seq<Shape> {
    Seq::new(types.len(), |i: int| shape(types[i]))
}

pub open spec fn shape_at(typ: Spanned<Type>) -> ShapeAt {
    ShapeAt { shape: shape(typ.value), span: typ.span }
}

pub open spec fn shapes_at(types: Seq<Spanned<Type>>) -> Seq<ShapeAt> {
    Seq::new(types.len(), |i: int| shape_at(types[i]))
}

pub open spec fn optional_shape(typ: Option<Spanned<Type>>) -> Option<ShapeAt> {
    match typ {
        Some(typ) => Some(shape_at(typ)),
        None => None,
    }
}

/// The types of annotations, without where they stand.
pub open spec fn bare(types: Seq<ShapeAt>) -> Seq<Shape> {
    Seq::new(types.len(), |i: int| types[i].shape)
}

/// How a type appears in the name of a concrete copy.
pub open spec fn mangled(shape: Shape) -> Seq<char>
    decreases shape, 0nat,
{
    match shape {
        Shape::Word(word) => word,
        Shape::SelfType => "self"@,
        Shape::RefSelf => "self"@,
        Shape::Named(name) => name,
        Shape::Ref(inner, mutable) => "ref_"@ + mangled(*inner),
        Shape::Array(inner, len) => ("array"@ + decimal(len as nat) + "_"@) + mangled(*inner),
        Shape::Slice(inner, mutable) => "slice_"@ + mangled(*inner),
        Shape::Generic(name, args) => name.push('$') + joined(args, args.len()),
    }
}

/// The first `count` types as they appear in a name, with `$` between them.
pub open spec fn joined(args: Seq<Shape>, count: nat) -> Seq<char>
    decreases args, count,
{
    if count == 0 || count > args.len() {
        Seq::empty()
    } else if count == 1 {
        mangled(args[0])
    } else {
        joined(args, (count - 1) as nat).push('$') + mangled(args[count - 1])
    }
}

/// The name of a template's copy for the given arguments.
pub open spec fn copy_name(base: Seq<char>, args: Seq<Shape>) -> Seq<char> {
    base.push('$') + joined(args, args.len())
}

fn type_keyword(typ: &Type<'_>) -> (word: Option<&'static str>)
    ensures
        type_word(*typ) == (match word {
            Some(word) => Some(word@),
            None => None,
        }),
{
    match *typ {
        Type::I8 => Some("i8"),
        Type::U8 => Some("u8"),
        Type::I16 => Some("i16"),
        Type::U16 => Some("u16"),
        Type::I32 => Some("i32"),
        Type::U32 => Some("u32"),
        Type::I64 => Some("i64"),
        Type::U64 => Some("u64"),
        Type::F32 => Some("f32"),
        Type::F64 => Some("f64"),
        Type::Bool => Some("bool"),
        Type::Uptr => Some("uptr"),
        Type::Iptr => Some("iptr"),
        Type::Char => Some("char"),
        Type::Str => Some("str"),
        Type::String => Some("string"),
        Type::Unit => Some("unit"),
        Type::Never => Some("!"),
        _ => None,
    }
}

/// How a type appears in the name of a concrete copy.
pub fn mangle_type_str(typ: &Type<'_>) -> (text: String)
    ensures
        text@ == mangled(shape(*typ)),
    decreases typ, 0nat,
{
    match *typ {
        Type::SelfType => "self".to_owned(),
        Type::RefSelf => "self".to_owned(),
        Type::Named(name) => name.to_owned(),
        Type::Ref(inner, _) => {
            let mut text = "ref_".to_owned();
            push_text(&mut text, mangle_type_str(inner).as_str());
            text
        },
        Type::Array(inner, len) => {
            let mut text = "array".to_owned();
            push_decimal(&mut text, len as u128);
            push_text(&mut text, "_");
            push_text(&mut text, mangle_type_str(inner).as_str());
            text
        },
        Type::Slice(inner, _) => {
            let mut text = "slice_".to_owned();
            push_text(&mut text, mangle_type_str(inner).as_str());
            text
        },
        Type::Generic(name, args) => mangle(name, args),
        _ => match type_keyword(typ) {
            Some(word) => word.to_owned(),
            None => "self".to_owned(),
        },
    }
}

/// The name of a template's copy: `base$arg1$arg2`.
pub fn mangle(base: &str, args: &Vec<Spanned<Type<'_>>>) -> (text: String)
    ensures
        text@ == copy_name(base@, arg_shapes(args@)),
    decreases args@, 1nat,
{
    let ghost shapes = arg_shapes(args@);
    let mut text = base.to_owned();
    text.push('$');
    assert(text@ =~= base@.push('$') + joined(shapes, 0));
    let mut i: usize = 0;
    while i < args.len()
        invariant
            i <= args@.len(),
            shapes == arg_shapes(args@),
            text@ == base@.push('$') + joined(shapes, i as nat),
        decreases args@.len() - i,
    {
        let ghost before = joined(shapes, i as nat);
        if i > 0 {
            text.push('$');
        }
        assert(shapes[i as int] == shape(args@[i as int].value));
        assert(decreases_to!(args@ => args@[i as int]));
        push_text(&mut text, mangle_type_str(&args[i].value).as_str());
        assert(text@ =~= base@.push('$') + joined(shapes, (i + 1) as nat));
        i += 1;
    }
    text
}

/// The name of a template's copy for types that stand nowhere in particular.
pub fn mangle_types(base: &str, args: &Vec<Type<'_>>) -> (text: String)
    ensures
        text@ == copy_name(base@, type_shapes(args@)),
{
    let ghost shapes = type_shapes(args@);
    let mut text = base.to_owned();
    text.push('$');
    assert(text@ =~= base@.push('$') + joined(shapes, 0));
    let mut i: usize = 0;
    while i < args.len()
        invariant
            i <= args@.len(),
            shapes == type_shapes(args@),
            text@ == base@.push('$') + joined(shapes, i as nat),
        decreases args@.len() - i,
    {
        if i > 0 {
            text.push('$');
        }
        assert(shapes[i as int] == shape(args@[i as int]));
        push_text(&mut text, mangle_type_str(&args[i]).as_str());
        assert(text@ =~= base@.push('$') + joined(shapes, (i + 1) as nat));
        i += 1;
    }
    text
}

/// Whether two annotations stand for the same type.
pub fn same_type(left: &Type<'_>, right: &Type<'_>) -> (same: bool)
    ensures
        same == (shape(*left) == shape(*right)),
    decreases left, 0nat,
{
    match (*left, *right) {
        (Type::SelfType, Type::SelfType) => true,
        (Type::RefSelf, Type::RefSelf) => true,
        (Type::Named(a), Type::Named(b)) => text_eq(a, b),
        (Type::Ref(a, m), Type::Ref(b, n)) => m == n && same_type(a, b),
        (Type::Array(a, m), Type::Array(b, n)) => m == n && same_type(a, b),
        (Type::Slice(a, m), Type::Slice(b, n)) => m == n && same_type(a, b),
        (Type::Generic(a, x), Type::Generic(b, y)) => text_eq(a, b) && same_args(x, y),
        _ => match (type_keyword(left), type_keyword(right)) {
            (Some(a), Some(b)) => text_eq(a, b),
            _ => false,
        },
    }
}

fn same_args(left: &Vec<Spanned<Type<'_>>>, right: &Vec<Spanned<Type<'_>>>) -> (same: bool)
    ensures
        same == (arg_shapes(left@) == arg_shapes(right@)),
    decreases left@, 1nat,
{
    if left.len() != right.len() {
        assert(arg_shapes(left@).len() != arg_shapes(right@).len());
        return false;
    }
    let mut i: usize = 0;
    while i < left.len()
        invariant
            i <= left@.len(),
            left@.len() == right@.len(),
            forall|j: int| 0 <= j < i ==> shape((#[trigger] left@[j]).value) == shape(right@[j].value),
        decreases left@.len() - i,
    {
        assert(decreases_to!(left@ => left@[i as int]));
        if !same_type(&left[i].value, &right[i].value) {
            assert(arg_shapes(left@)[i as int] != arg_shapes(right@)[i as int]);
            return false;
        }
        i += 1;
    }
    assert(arg_shapes(left@) =~= arg_shapes(right@));
    true
}

/// Whether two lists of types are the same.
pub fn same_types(left: &Vec<Type<'_>>, right: &Vec<Type<'_>>) -> (same: bool)
    ensures
        same == (type_shapes(left@) == type_shapes(right@)),
{
    if left.len() != right.len() {
        assert(type_shapes(left@).len() != type_shapes(right@).len());
        return false;
    }
    let mut i: usize = 0;
    while i < left.len()
        invariant
            i <= left@.len(),
            left@.len() == right@.len(),
            forall|j: int| 0 <= j < i ==> shape(#[trigger] left@[j]) == shape(right@[j]),
        decreases left@.len() - i,
    {
        if !same_type(&left[i], &right[i]) {
            assert(type_shapes(left@)[i as int] != type_shapes(right@)[i as int]);
            return false;
        }
        i += 1;
    }
    assert(type_shapes(left@) =~= type_shapes(right@));
    true
}

} // verus!
