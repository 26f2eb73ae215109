//! Types as text.

use crate::hir::types::{Type, TypeKind};
use crate::text::{decimal, push_decimal, push_text};
use vstd::prelude::*;

verus! {

/// A type other than a reference or slice as text.
pub open spec fn plain_text(kind: TypeKind) -> Seq<char> {
    match kind {
        TypeKind::Unit => "unit"@,
        TypeKind::I8 => "i8"@,
        TypeKind::U8 => "u8"@,
        TypeKind::I16 => "i16"@,
        TypeKind::U16 => "u16"@,
        TypeKind::I32 => "i32"@,
        TypeKind::U32 => "u32"@,
        TypeKind::I64 => "i64"@,
        TypeKind::U64 => "u64"@,
        TypeKind::F32 => "f32"@,
        TypeKind::F64 => "f64"@,
        TypeKind::Bool => "bool"@,
        TypeKind::Uptr => "uptr"@,
        TypeKind::Iptr => "iptr"@,
        TypeKind::Char => "char"@,
        TypeKind::Str => "&str"@,
        TypeKind::String => "String"@,
        TypeKind::SelfType => "Self"@,
        TypeKind::Struct(id) => "struct#"@ + decimal(id.0 as nat),
        TypeKind::Enum(id) => "enum#"@ + decimal(id.0 as nat),
        TypeKind::Array(id) => "array#"@ + decimal(id.0 as nat),
        TypeKind::GenericParam(index) => "T"@ + decimal(index as nat),
        TypeKind::Infer(_) => "{integer}"@,
        TypeKind::Never => "!"@,
        TypeKind::Error => "{unknown}"@,
        TypeKind::Ref { .. } => "&"@,
        TypeKind::Slice { .. } => "&[]"@,
    }
}

/// A type as text.
pub open spec fn type_text(typ: Type) -> Seq<char> {
    match typ.kind() {
        TypeKind::Ref { mutable, to } => (if mutable {
            "&mut "@
        } else {
            "&"@
        }) + plain_text(Type::from_target(to).kind()),
        TypeKind::Slice { mutable, element } => (if mutable {
            "&mut ["@
        } else {
            "&["@
        }) + plain_text(Type::from_target(element).kind()) + "]"@,
        kind => plain_text(kind),
    }
}

fn push_plain(out: &mut String, kind: TypeKind)
    ensures
        final(out)@ == old(out)@ + plain_text(kind),
{
    let text: &str = match kind {
        TypeKind::Unit => "unit",
        TypeKind::I8 => "i8",
        TypeKind::U8 => "u8",
        TypeKind::I16 => "i16",
        TypeKind::U16 => "u16",
        TypeKind::I32 => "i32",
        TypeKind::U32 => "u32",
        TypeKind::I64 => "i64",
        TypeKind::U64 => "u64",
        TypeKind::F32 => "f32",
        TypeKind::F64 => "f64",
        TypeKind::Bool => "bool",
        TypeKind::Uptr => "uptr",
        TypeKind::Iptr => "iptr",
        TypeKind::Char => "char",
        TypeKind::Str => "&str",
        TypeKind::String => "String",
        TypeKind::SelfType => "Self",
        TypeKind::Infer(_) => "{integer}",
        TypeKind::Never => "!",
        TypeKind::Error => "{unknown}",
        TypeKind::Ref { .. } => "&",
        TypeKind::Slice { .. } => "&[]",
        TypeKind::Struct(_) => "struct#",
        TypeKind::Enum(_) => "enum#",
        TypeKind::Array(_) => "array#",
        TypeKind::GenericParam(_) => "T",
    };
    push_text(out, text);
    let number: u32 = match kind {
        TypeKind::Struct(id) => id.0,
        TypeKind::Enum(id) => id.0,
        TypeKind::Array(id) => id.0,
        TypeKind::GenericParam(index) => index as u32,
        _ => return,
    };
    push_decimal(out, number as u128);
    assert(out@ =~= old(out)@ + plain_text(kind));
}

/// Appends a type as text.
pub fn push_type(out: &mut String, typ: Type)
    ensures
        final(out)@ == old(out)@ + type_text(typ),
{
    match typ.kind() {
        TypeKind::Ref { mutable, to } => {
            if mutable {
                push_text(out, "&mut ");
            } else {
                push_text(out, "&");
            }
            push_plain(out, Type::from_target(to).kind());
        },
        TypeKind::Slice { mutable, element } => {
            if mutable {
                push_text(out, "&mut [");
            } else {
                push_text(out, "&[");
            }
            push_plain(out, Type::from_target(element).kind());
            push_text(out, "]");
        },
        kind => push_plain(out, kind),
    }
    assert(out@ =~= old(out)@ + type_text(typ));
}

impl Type {
    /// The type as text.
    pub fn text(self) -> (text: String)
        ensures
            text@ == type_text(self),
    {
        let mut text = String::new();
        push_type(&mut text, self);
        assert(text@ =~= type_text(self));
        text
    }
}

} // verus!
