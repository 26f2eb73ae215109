//! Names of generic instances.

use crate::hir::scope::{Names, Scope};
use crate::hir::types::{Type, TypeKind};
use crate::text::{decimal, push_decimal, push_text};
use vstd::prelude::*;

verus! {

/// How a type without a name of its own appears in the name of an instance.
pub open spec fn mangled(kind: TypeKind) -> Seq<char> {
    match kind {
        TypeKind::Unit => "unit"@,
        TypeKind::I8 => "i8"@,
        TypeKind::U8 => "u8"@,
        TypeKind::I16 => "i16"@,
        TypeKind::U16 => "u16"@,
        TypeKind::I32 => "i32"@,
        TypeKind::U32 => "u32"@,
        TypeKind::I64 => "i64"@,
        TypeKind::U64 => "u64"@,
        TypeKind::F32 => "f32"@,
        TypeKind::F64 => "f64"@,
        TypeKind::Bool => "bool"@,
        TypeKind::Uptr => "uptr"@,
        TypeKind::Iptr => "iptr"@,
        TypeKind::Char => "char"@,
        TypeKind::Str => "str"@,
        TypeKind::String => "String"@,
        TypeKind::SelfType => "Self"@,
        TypeKind::Never => "never"@,
        TypeKind::Error => "error"@,
        TypeKind::Array(id) => "array"@ + decimal(id.0 as nat),
        TypeKind::Infer(var) => "infer"@ + decimal(var as nat),
        TypeKind::GenericParam(index) => "T"@ + decimal(index as nat),
        TypeKind::Struct(_) => "struct"@,
        TypeKind::Enum(_) => "enum"@,
        TypeKind::Ref { .. } => "ref"@,
        TypeKind::Slice { .. } => "slice"@,
    }
}

fn mangle_kind(kind: TypeKind) -> (text: String)
    ensures
        text@ == mangled(kind),
{
    let fixed: &str = match kind {
        TypeKind::Unit => "unit",
        TypeKind::I8 => "i8",
        TypeKind::U8 => "u8",
        TypeKind::I16 => "i16",
        TypeKind::U16 => "u16",
        TypeKind::I32 => "i32",
        TypeKind::U32 => "u32",
        TypeKind::I64 => "i64",
        TypeKind::U64 => "u64",
        TypeKind::F32 => "f32",
        TypeKind::F64 => "f64",
        TypeKind::Bool => "bool",
        TypeKind::Uptr => "uptr",
        TypeKind::Iptr => "iptr",
        TypeKind::Char => "char",
        TypeKind::Str => "str",
        TypeKind::String => "String",
        TypeKind::SelfType => "Self",
        TypeKind::Never => "never",
        TypeKind::Error => "error",
        TypeKind::Struct(_) => "struct",
        TypeKind::Enum(_) => "enum",
        TypeKind::Ref { .. } => "ref",
        TypeKind::Slice { .. } => "slice",
        TypeKind::Array(id) => return numbered("array", id.0),
        TypeKind::Infer(var) => return numbered("infer", var),
        TypeKind::GenericParam(index) => return numbered("T", index as u32),
    };
    fixed.to_owned()
}

fn numbered(prefix: &str, number: u32) -> (text: String)
    ensures
        text@ == prefix@ + decimal(number as nat),
{
    let mut text = prefix.to_owned();
    push_decimal(&mut text, number as u128);
    text
}

impl<'hir> Names<'hir> {
    /// How a type that is neither a reference nor a slice appears in the name of an instance.
    pub open spec fn plain_component(self, typ: Type) -> Seq<char> {
        match typ.kind() {
            TypeKind::Struct(id) => match self.structure(id) {
                Some(definition) => self.name(definition.name),
                None => mangled(typ.kind()),
            },
            TypeKind::Enum(id) => match self.enumeration(id) {
                Some(definition) => self.name(definition.name),
                None => mangled(typ.kind()),
            },
            kind => mangled(kind),
        }
    }

    /// How a type appears in the name of an instance.
    pub open spec fn mangle_component(self, typ: Type) -> Seq<char> {
        match typ.kind() {
            TypeKind::Ref { mutable, to } => "ref_"@ + self.plain_component(Type::from_target(to)),
            TypeKind::Slice { mutable, element } => "slice_"@ + self.plain_component(
                Type::from_target(element),
            ),
            _ => self.plain_component(typ),
        }
    }

    /// `base$arg$arg`: the name of a generic item applied to `args`.
    pub open spec fn mangle_generic(self, base: Seq<char>, args: Seq<Type>) -> Seq<char>
        decreases args.len(),
    {
        if args.len() == 0 {
            base
        } else {
            self.mangle_generic(base, args.drop_last()).push('$') + self.mangle_component(
                args.last(),
            )
        }
    }
}

impl<'hir> Scope<'hir> {
    fn plain_component(&self, typ: Type) -> (text: String)
        ensures
            text@ == self@.plain_component(typ),
    {
        match typ.kind() {
            TypeKind::Struct(id) => match self.structure(id) {
                Some(definition) => self.symbols.name(definition.name).to_owned(),
                None => mangle_kind(typ.kind()),
            },
            TypeKind::Enum(id) => match self.enumeration(id) {
                Some(definition) => self.symbols.name(definition.name).to_owned(),
                None => mangle_kind(typ.kind()),
            },
            kind => mangle_kind(kind),
        }
    }

    fn mangle_component(&self, typ: Type) -> (text: String)
        ensures
            text@ == self@.mangle_component(typ),
    {
        match typ.kind() {
            TypeKind::Ref { to, .. } => {
                let mut text = "ref_".to_owned();
                push_text(&mut text, self.plain_component(Type::from_target(to)).as_str());
                text
            },
            TypeKind::Slice { element, .. } => {
                let mut text = "slice_".to_owned();
                push_text(&mut text, self.plain_component(Type::from_target(element)).as_str());
                text
            },
            _ => self.plain_component(typ),
        }
    }

    /// The name of a generic item applied to `args`.
    pub fn mangle_generic(&self, base: &str, args: &[Type]) -> (text: String)
        ensures
            text@ == self@.mangle_generic(base@, args@),
    {
        let mut text = base.to_owned();
        let mut i: usize = 0;
        while i < args.len()
            invariant
                i <= args@.len(),
                text@ == self@.mangle_generic(base@, args@.take(i as int)),
            decreases args@.len() - i,
        {
            assert(args@.take(i + 1).drop_last() =~= args@.take(i as int));
            text.push('$');
            push_text(&mut text, self.mangle_component(args[i]).as_str());
            i += 1;
        }
        assert(args@.take(i as int) =~= args@);
        text
    }
}

} // verus!
