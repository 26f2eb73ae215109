//! What the texts say that an editor shows.

use crate::analysis::{
    doc_text, outline, short_name, Outline, Scene, SymbolKind, MAX_HOVER_ITEMS,
};
use crate::ast::{no_span, Span};
use crate::hir::display::type_text;
use crate::hir::scope::resolve_primitive_type_spec;
use crate::hir::symbols::{name_of, SymbolId};
use crate::hir::tree::{Constant, Enum, Function, Struct};
use crate::hir::types::{Type, TypeKind};
use vstd::prelude::*;

verus! {

/// Texts one after the other.
pub open spec fn concat(parts: Seq<Seq<char>>) -> Seq<char>
    decreases parts.len(),
{
    if parts.len() == 0 {
        Seq::empty()
    } else {
        concat(parts.drop_last()) + parts.last()
    }
}

/// Texts one after the other, with a comma and a blank between two.
pub open spec fn listed(parts: Seq<Seq<char>>) -> Seq<char>
    decreases parts.len(),
{
    if parts.len() == 0 {
        Seq::empty()
    } else if parts.len() == 1 {
        parts[0]
    } else {
        listed(parts.drop_last()) + ", "@ + parts.last()
    }
}

/// What is written for a parameter: its name and its type, or for the receiver how it is passed.
pub open spec fn param_words<'h>(scene: Scene<'h>, function: Function<'h>, i: int) -> Seq<char> {
    let param = function.params@[i];
    let name = if param.id.0 < function.locals@.len() {
        name_of(scene.names, function.locals@[param.id.0 as int].name)
    } else {
        Seq::empty()
    };
    if name != "self"@ {
        name + ": "@ + scene.format_type(param.typ, function.generics@)
    } else {
        match param.typ.kind() {
            TypeKind::Ref { mutable, .. } => if mutable {
                "&mut self"@
            } else {
                "&self"@
            },
            _ => "self"@,
        }
    }
}

proof fn lemma_params<'h>(scene: Scene<'h>, base: Seq<char>, function: Function<'h>, at: nat)
    requires
        at <= function.params@.len(),
    ensures
        ({
            let parts = Seq::new(function.params@.len(), |i: int| param_words(scene, function, i));
            scene.params_text(base + listed(parts.take(at as int)), function, at) == base + listed(
                parts,
            )
        }),
    decreases function.params@.len() - at,
{
    let parts = Seq::new(function.params@.len(), |i: int| param_words(scene, function, i));
    if at < function.params@.len() {
        let now = parts.take(at as int);
        let more = parts.take(at as int + 1);
        assert(more.drop_last() =~= now);
        assert(more.last() == param_words(scene, function, at as int));
        let out = base + listed(now);
        let next = if at > 0 {
            out + ", "@
        } else {
            out
        };
        let word = param_words(scene, function, at as int);
        if at == 0 {
            assert(now =~= Seq::empty());
            assert(next + word =~= base + listed(more));
        } else {
            assert(next + word =~= base + listed(more));
        }
        let name = scene.local_name(function.locals@, function.params@[at as int].id);
        let typ = scene.format_type(function.params@[at as int].typ, function.generics@);
        if name != "self"@ {
            assert(next + name + ": "@ + typ =~= next + word);
        }
        lemma_params(scene, base, function, at + 1);
    } else {
        assert(parts.take(at as int) =~= parts);
    }
}

/// What is shown of a function: the words that it was declared with, its name, its parameters in
/// their order, and its result unless that is the unit.
pub proof fn lemma_signature_text<'h>(scene: Scene<'h>, out: Seq<char>, function: Function<'h>)
    ensures
        ({
            let parts = Seq::new(function.params@.len(), |i: int| param_words(scene, function, i));
            let result = scene.format_type(function.return_type, function.generics@);
            let head = out + (if function.is_pub {
                "pub "@
            } else {
                Seq::empty()
            }) + (if function.inline {
                "inline "@
            } else {
                Seq::empty()
            }) + (if function.is_const {
                "const "@
            } else {
                Seq::empty()
            }) + "fn "@ + short_name(name_of(scene.names, function.name)) + "("@ + listed(parts)
                + ")"@;
            scene.signature(out, function) == if result == "()"@ {
                head
            } else {
                head + ": "@ + result
            }
        }),
{
    let parts = Seq::new(function.params@.len(), |i: int| param_words(scene, function, i));
    let public = out + (if function.is_pub {
        "pub "@
    } else {
        Seq::empty()
    });
    let inlined = public + (if function.inline {
        "inline "@
    } else {
        Seq::empty()
    });
    let constant = inlined + (if function.is_const {
        "const "@
    } else {
        Seq::empty()
    });
    assert(out + Seq::empty() =~= out);
    assert(public + Seq::empty() =~= public);
    assert(inlined + Seq::empty() =~= inlined);
    let base = constant + "fn "@ + short_name(name_of(scene.names, function.name)) + "("@;
    assert(parts.take(0) =~= Seq::empty());
    assert(base + listed(parts.take(0)) =~= base);
    lemma_params(scene, base, function, 0);
}

pub open spec fn field_words<'h>(scene: Scene<'h>, structure: Struct<'h>, i: int) -> Seq<char> {
    let field = structure.fields@[i];
    "    "@ + name_of(scene.names, field.name) + ": "@ + scene.format_type(
        field.typ,
        structure.generics@,
    ) + ",\n"@
}

/// How many of so many items are shown.
pub open spec fn shown_count(len: nat) -> nat {
    if len < MAX_HOVER_ITEMS {
        len
    } else {
        MAX_HOVER_ITEMS as nat
    }
}

proof fn lemma_field_lines<'h>(scene: Scene<'h>, base: Seq<char>, structure: Struct<'h>, at: nat)
    requires
        at <= shown_count(structure.fields@.len()),
    ensures
        ({
            let parts = Seq::new(
                shown_count(structure.fields@.len()),
                |i: int| field_words(scene, structure, i),
            );
            scene.field_lines(base + concat(parts.take(at as int)), structure, at) == base + concat(
                parts,
            )
        }),
    decreases shown_count(structure.fields@.len()) - at,
{
    let parts = Seq::new(
        shown_count(structure.fields@.len()),
        |i: int| field_words(scene, structure, i),
    );
    if at < parts.len() {
        let now = parts.take(at as int);
        let more = parts.take(at as int + 1);
        assert(more.drop_last() =~= now);
        let out = base + concat(now);
        let field = structure.fields@[at as int];
        assert(out + "    "@ + name_of(scene.names, field.name) + ": "@ + scene.format_type(
            field.typ,
            structure.generics@,
        ) + ",\n"@ =~= base + concat(more));
        lemma_field_lines(scene, base, structure, at + 1);
    } else {
        assert(parts.take(at as int) =~= parts);
    }
}

/// What is shown of a struct: its name, and its first fields in their order, each with its type.
pub proof fn lemma_struct_text<'h>(scene: Scene<'h>, structure: Struct<'h>)
    ensures
        ({
            let head = "struct "@ + scene.nominal_name(structure.name, structure.generics@);
            let parts = Seq::new(
                shown_count(structure.fields@.len()),
                |i: int| field_words(scene, structure, i),
            );
            &&& structure.fields@.len() == 0 ==> scene.struct_def(structure) == head
            &&& 0 < structure.fields@.len() <= MAX_HOVER_ITEMS ==> scene.struct_def(structure)
                == head + " {\n"@ + concat(parts) + "}"@
            &&& structure.fields@.len() > MAX_HOVER_ITEMS ==> exists|rest: Seq<char>|
                scene.struct_def(structure) == #[trigger] (head + " {\n"@ + concat(parts) + rest)
        }),
{
    let head = "struct "@ + scene.nominal_name(structure.name, structure.generics@);
    let parts = Seq::new(
        shown_count(structure.fields@.len()),
        |i: int| field_words(scene, structure, i),
    );
    let base = head + " {\n"@;
    assert(parts.take(0) =~= Seq::empty());
    assert(base + concat(parts.take(0)) =~= base);
    lemma_field_lines(scene, base, structure, 0);
    if structure.fields@.len() > MAX_HOVER_ITEMS {
        let rest = scene.struct_def(structure).skip((base + concat(parts)).len() as int);
        assert(scene.struct_def(structure) =~= base + concat(parts) + rest);
    }
}

pub open spec fn variant_words<'h>(scene: Scene<'h>, enumeration: Enum<'h>, i: int) -> Seq<char> {
    let variant = enumeration.variants@[i];
    "    "@ + name_of(scene.names, variant.name) + (match variant.payload {
        Some(typ) => "("@ + scene.format_type(typ, enumeration.generics@) + ")"@,
        None => Seq::empty(),
    }) + ",\n"@
}

proof fn lemma_variant_lines<'h>(scene: Scene<'h>, base: Seq<char>, enumeration: Enum<'h>, at: nat)
    requires
        at <= shown_count(enumeration.variants@.len()),
    ensures
        ({
            let parts = Seq::new(
                shown_count(enumeration.variants@.len()),
                |i: int| variant_words(scene, enumeration, i),
            );
            scene.variant_lines(base + concat(parts.take(at as int)), enumeration, at) == base
                + concat(parts)
        }),
    decreases shown_count(enumeration.variants@.len()) - at,
{
    let parts = Seq::new(
        shown_count(enumeration.variants@.len()),
        |i: int| variant_words(scene, enumeration, i),
    );
    if at < parts.len() {
        let now = parts.take(at as int);
        let more = parts.take(at as int + 1);
        assert(more.drop_last() =~= now);
        let out = base + concat(now);
        let variant = enumeration.variants@[at as int];
        let named = out + "    "@ + name_of(scene.names, variant.name);
        let line = match variant.payload {
            Some(typ) => named + "("@ + scene.format_type(typ, enumeration.generics@) + ")"@,
            None => named,
        };
        assert(line + ",\n"@ =~= base + concat(more));
        lemma_variant_lines(scene, base, enumeration, at + 1);
    } else {
        assert(parts.take(at as int) =~= parts);
    }
}

/// What is shown of an enum: its name, and its first variants in their order, each with what it
/// carries.
pub proof fn lemma_enum_text<'h>(scene: Scene<'h>, enumeration: Enum<'h>)
    ensures
        ({
            let head = "enum "@ + scene.nominal_name(enumeration.name, enumeration.generics@);
            let parts = Seq::new(
                shown_count(enumeration.variants@.len()),
                |i: int| variant_words(scene, enumeration, i),
            );
            &&& enumeration.variants@.len() == 0 ==> scene.enum_def(enumeration) == head
            &&& 0 < enumeration.variants@.len() <= MAX_HOVER_ITEMS ==> scene.enum_def(enumeration)
                == head + " {\n"@ + concat(parts) + "}"@
            &&& enumeration.variants@.len() > MAX_HOVER_ITEMS ==> exists|rest: Seq<char>|
                scene.enum_def(enumeration) == #[trigger] (head + " {\n"@ + concat(parts) + rest)
        }),
{
    let head = "enum "@ + scene.nominal_name(enumeration.name, enumeration.generics@);
    let parts = Seq::new(
        shown_count(enumeration.variants@.len()),
        |i: int| variant_words(scene, enumeration, i),
    );
    let base = head + " {\n"@;
    assert(parts.take(0) =~= Seq::empty());
    assert(base + concat(parts.take(0)) =~= base);
    lemma_variant_lines(scene, base, enumeration, 0);
    if enumeration.variants@.len() > MAX_HOVER_ITEMS {
        let rest = scene.enum_def(enumeration).skip((base + concat(parts)).len() as int);
        assert(scene.enum_def(enumeration) =~= base + concat(parts) + rest);
    }
}

/// What is shown of a constant: whether it is public, its name, its type, and its value where it
/// can be told.
pub proof fn lemma_constant_text<'h>(scene: Scene<'h>, constant: Constant<'h>)
    ensures
        ({
            let head = (if constant.is_pub {
                "pub const "@
            } else {
                "const "@
            }) + short_name(name_of(scene.names, constant.name)) + ": "@ + scene.format_type(
                constant.typ,
                Seq::empty(),
            );
            &&& scene.const_hover(constant).layout is None
            &&& scene.const_hover(constant).docs == doc_text(scene.docs, constant.decl_span, 0)
            &&& match scene.const_value(constant) {
                Some(value) => scene.const_hover(constant).ty == head + " = "@ + value,
                None => scene.const_hover(constant).ty == head,
            }
        }),
{
}

/// A reference is shown as a sign and what it is of; the sign tells whether it may be written
/// through.
pub proof fn lemma_reference_text<'h>(scene: Scene<'h>, typ: Type, generics: Seq<SymbolId>)
    ensures
        typ.kind() matches TypeKind::Ref { mutable, to } ==> {
            let target = scene.format_type(Type::from_target(to), generics);
            scene.format_type(typ, generics) == (if mutable {
                "&mut "@
            } else {
                "&"@
            }) + target
        },
        typ.kind() matches TypeKind::GenericParam(i) ==> i < generics.len() ==> scene.format_type(
            typ,
            generics,
        ) == name_of(scene.names, generics[i as int]),
{
    typ.lemma_targets();
}

/// The name of a primitive type stands for the type that is shown by that name.
pub proof fn lemma_primitive_names(name: Seq<char>)
    ensures
        resolve_primitive_type_spec(name) matches Some(typ) ==> typ.kind() is Str || type_text(typ)
            == name,
        resolve_primitive_type_spec("str"@) == Some(Type::new(TypeKind::Str)),
{
    Type::lemma_round_trip(TypeKind::I8);
    Type::lemma_round_trip(TypeKind::U8);
    Type::lemma_round_trip(TypeKind::I16);
    Type::lemma_round_trip(TypeKind::U16);
    Type::lemma_round_trip(TypeKind::I32);
    Type::lemma_round_trip(TypeKind::U32);
    Type::lemma_round_trip(TypeKind::I64);
    Type::lemma_round_trip(TypeKind::U64);
    Type::lemma_round_trip(TypeKind::F32);
    Type::lemma_round_trip(TypeKind::F64);
    Type::lemma_round_trip(TypeKind::Bool);
    Type::lemma_round_trip(TypeKind::Uptr);
    Type::lemma_round_trip(TypeKind::Iptr);
    Type::lemma_round_trip(TypeKind::Char);
    Type::lemma_round_trip(TypeKind::Str);
    Type::lemma_round_trip(TypeKind::String);
    reveal_strlit("str");
    reveal_strlit("i8");
    reveal_strlit("u8");
    reveal_strlit("i16");
    reveal_strlit("u16");
    reveal_strlit("i32");
    reveal_strlit("u32");
    reveal_strlit("i64");
    reveal_strlit("u64");
    reveal_strlit("f32");
    reveal_strlit("f64");
    reveal_strlit("bool");
    reveal_strlit("uptr");
    reveal_strlit("iptr");
    reveal_strlit("char");
    assert("str"@[0] == 's' && "str"@.len() == 3);
    assert("i16"@[0] == 'i' && "u16"@[0] == 'u' && "i32"@[0] == 'i' && "u32"@[0] == 'u');
    assert("i64"@[0] == 'i' && "u64"@[0] == 'u' && "f32"@[0] == 'f' && "f64"@[0] == 'f');
}

/// The documentation of an item is the one at its place.
pub proof fn lemma_doc_text(docs: Seq<(Span, Seq<char>)>, span: Span, at: nat)
    ensures
        match doc_text(docs, span, at) {
            Some(text) => exists|i: int|
                at <= i < docs.len() && #[trigger] docs[i] == (span, text),
            None => forall|i: int| at <= i < docs.len() ==> (#[trigger] docs[i]).0 != span,
        },
    decreases docs.len() - at,
{
    if at < docs.len() && docs[at as int].0 != span {
        lemma_doc_text(docs, span, at + 1);
    }
}

proof fn lemma_outlined(
    out: Seq<(Span, Outline)>,
    names: Seq<Seq<char>>,
    items: Seq<(SymbolId, Span)>,
    kind: SymbolKind,
    at: nat,
    entry: (Span, Outline),
)
    ensures
        outline(out, names, items, kind, at).contains(entry) <==> out.contains(entry) || exists|
            i: int,
        |
            at <= i < items.len() && (#[trigger] items[i]).1 != no_span() && entry == (
                items[i].1,
                Outline { name: short_name(name_of(names, items[i].0)), kind, span: items[i].1 },
            ),
    decreases items.len() - at,
{
    if at < items.len() {
        let (name, span) = items[at as int];
        let own = (span, Outline { name: short_name(name_of(names, name)), kind, span });
        let next = if span == no_span() {
            out
        } else {
            out.push(own)
        };
        lemma_outlined(next, names, items, kind, at + 1, entry);
        assert(next.contains(entry) <==> out.contains(entry) || (span != no_span() && entry == own))
            by {
            if out.contains(entry) {
                let i = choose|i: int| 0 <= i < out.len() && out[i] == entry;
                assert(next[i] == entry);
            }
            if span != no_span() {
                assert(next[out.len() as int] == own);
            }
            if next.contains(entry) {
                let i = choose|i: int| 0 <= i < next.len() && next[i] == entry;
                if i < out.len() {
                    assert(out[i] == entry);
                }
            }
        }
    }
}

/// What the outline of a program lists: its functions, structs, enums and constants that stand in
/// the source, each by its short name, its kind and its place, and nothing else.
pub proof fn lemma_outline<'h>(scene: Scene<'h>, entry: (Span, Outline))
    ensures
        scene.outline().contains(entry) <==> {
            let is = |name: SymbolId, span: Span, kind: SymbolKind|
                span != no_span() && entry == (
                    span,
                    Outline { name: short_name(name_of(scene.names, name)), kind, span },
                );
            ||| exists|i: int|
                0 <= i < scene.functions.len() && is(
                    (#[trigger] scene.functions[i]).name,
                    scene.functions[i].decl_span,
                    SymbolKind::Function,
                )
            ||| exists|i: int|
                0 <= i < scene.structs.len() && is(
                    (#[trigger] scene.structs[i]).name,
                    scene.structs[i].decl_span,
                    SymbolKind::Struct,
                )
            ||| exists|i: int|
                0 <= i < scene.enums.len() && is(
                    (#[trigger] scene.enums[i]).name,
                    scene.enums[i].decl_span,
                    SymbolKind::Enum,
                )
            ||| exists|i: int|
                0 <= i < scene.constants.len() && is(
                    (#[trigger] scene.constants[i]).name,
                    scene.constants[i].decl_span,
                    SymbolKind::Constant,
                )
        },
{
    let functions = scene.functions.map_values(
        |function: Function<'h>| (function.name, function.decl_span),
    );
    let structs = scene.structs.map_values(
        |structure: Struct<'h>| (structure.name, structure.decl_span),
    );
    let enums = scene.enums.map_values(
        |enumeration: Enum<'h>| (enumeration.name, enumeration.decl_span),
    );
    let constants = scene.constants.map_values(
        |constant: &'h Constant<'h>| (constant.name, constant.decl_span),
    );
    let a = outline(Seq::empty(), scene.names, functions, SymbolKind::Function, 0);
    let b = outline(a, scene.names, structs, SymbolKind::Struct, 0);
    let c = outline(b, scene.names, enums, SymbolKind::Enum, 0);
    lemma_outlined(Seq::empty(), scene.names, functions, SymbolKind::Function, 0, entry);
    lemma_outlined(a, scene.names, structs, SymbolKind::Struct, 0, entry);
    lemma_outlined(b, scene.names, enums, SymbolKind::Enum, 0, entry);
    lemma_outlined(c, scene.names, constants, SymbolKind::Constant, 0, entry);
    assert forall|i: int| 0 <= i < functions.len() implies #[trigger] functions[i] == (
        scene.functions[i].name,
        scene.functions[i].decl_span,
    ) by {}
    assert forall|i: int| 0 <= i < structs.len() implies #[trigger] structs[i] == (
        scene.structs[i].name,
        scene.structs[i].decl_span,
    ) by {}
    assert forall|i: int| 0 <= i < enums.len() implies #[trigger] enums[i] == (
        scene.enums[i].name,
        scene.enums[i].decl_span,
    ) by {}
    assert forall|i: int| 0 <= i < constants.len() implies #[trigger] constants[i] == (
        scene.constants[i].name,
        scene.constants[i].decl_span,
    ) by {}
    assert forall|i: int| 0 <= i < scene.functions.len() implies functions[i] == (
        (#[trigger] scene.functions[i]).name,
        scene.functions[i].decl_span,
    ) by {}
    assert forall|i: int| 0 <= i < scene.structs.len() implies structs[i] == (
        (#[trigger] scene.structs[i]).name,
        scene.structs[i].decl_span,
    ) by {}
    assert forall|i: int| 0 <= i < scene.enums.len() implies enums[i] == (
        (#[trigger] scene.enums[i]).name,
        scene.enums[i].decl_span,
    ) by {}
    assert forall|i: int| 0 <= i < scene.constants.len() implies constants[i] == (
        (#[trigger] scene.constants[i]).name,
        scene.constants[i].decl_span,
    ) by {}
}

} // verus!
