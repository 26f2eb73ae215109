//! Byte layouts of types.

use crate::arena::{slice_of, Arena};
use crate::ast::{StructRepr, StructReprKind};
use crate::hir::symbols::SymbolId;
use crate::hir::tree::{ArrayType, Enum, EnumVariant, Layout, Struct, StructField};
use crate::hir::types::{RefTargetKind, StructId, Type, TypeKind};
use vstd::prelude::*;

verus! {

/// Size and alignment of a type whose layout does not depend on other types.
#[verifier::allow_in_spec]
pub fn scalar_layout(typ: Type) -> Option<(u32, u32)>
    returns
        (match typ.kind() {
            TypeKind::I8 | TypeKind::U8 | TypeKind::Bool => Some((1u32, 1u32)),
            TypeKind::I16 | TypeKind::U16 => Some((2u32, 2u32)),
            TypeKind::I32 | TypeKind::U32 | TypeKind::F32 | TypeKind::Char => Some((4u32, 4u32)),
            TypeKind::I64 | TypeKind::U64 | TypeKind::Iptr | TypeKind::Uptr | TypeKind::F64 =>
                Some((8u32, 8u32)),
            TypeKind::Ref { .. } => Some((8u32, 8u32)),
            TypeKind::Str => Some((16u32, 8u32)),
            TypeKind::Slice { .. } => Some((16u32, 8u32)),
            TypeKind::String => Some((24u32, 8u32)),
            TypeKind::Unit | TypeKind::Never => Some((0u32, 1u32)),
            _ => None,
        }),
{
    match typ.kind() {
        TypeKind::I8 | TypeKind::U8 | TypeKind::Bool => Some((1, 1)),
        TypeKind::I16 | TypeKind::U16 => Some((2, 2)),
        TypeKind::I32 | TypeKind::U32 | TypeKind::F32 | TypeKind::Char => Some((4, 4)),
        TypeKind::I64 | TypeKind::U64 | TypeKind::Iptr | TypeKind::Uptr | TypeKind::F64 =>
            Some((8, 8)),
        TypeKind::Ref { .. } => Some((8, 8)),
        TypeKind::Str => Some((16, 8)),
        TypeKind::Slice { .. } => Some((16, 8)),
        TypeKind::String => Some((24, 8)),
        TypeKind::Unit | TypeKind::Never => Some((0, 1)),
        _ => None,
    }
}

/// The least multiple of `align`, a power of two, that is not below `value`.
///
/// Arithmetic is modulo the address size of 32 bits.
#[verifier::allow_in_spec]
pub fn align_to(value: u32, align: u32) -> u32
    returns
        value.wrapping_add(align.wrapping_sub(1)) & !align.wrapping_sub(1),
{
    value.wrapping_add(align.wrapping_sub(1)) & !align.wrapping_sub(1)
}

pub open spec fn is_power_of_two(align: u32) -> bool {
    align != 0 && align & (align - 1) as u32 == 0
}

/// Whether an offset is a multiple of an alignment.
pub open spec fn is_aligned(offset: u32, align: u32) -> bool {
    offset & (align - 1) as u32 == 0
}

/// Aligning moves up by less than the alignment, to a multiple of it.
pub proof fn lemma_align_to(value: u32, align: u32)
    requires
        is_power_of_two(align),
        value + align <= u32::MAX,
    ensures
        is_aligned(align_to(value, align), align),
        value <= align_to(value, align) < value + align,
{
    let mask = (align - 1) as u32;
    let sum = (value + mask) as u32;
    let result = sum & !mask;
    assert(result & mask == 0 && result <= sum && sum - result <= mask) by (bit_vector)
        requires
            result == sum & !mask,
    ;
    assert(align_to(value, align) == result);
}

/// The layouts of structs and enums as far as they are known.
pub ghost struct LayoutTable {
    pub structs: Seq<Layout>,
    pub enums: Seq<Layout>,
}

/// The layout of a type without one.
pub open spec fn no_layout() -> Layout {
    Layout::new(0, 1, false)
}

/// The layout of a type, given those of structs and enums, looking at most `fuel` deep into
/// arrays.
pub open spec fn layout_of(
    table: LayoutTable,
    arrays: Seq<ArrayType>,
    typ: Type,
    fuel: nat,
) -> Layout
    decreases fuel,
{
    match scalar_layout(typ) {
        Some((size, align)) => Layout::new(size, align, typ.is_float()),
        None => match typ.kind() {
            TypeKind::Struct(id) => if id.0 < table.structs.len() {
                table.structs[id.0 as int]
            } else {
                no_layout()
            },
            TypeKind::Enum(id) => if id.0 < table.enums.len() {
                table.enums[id.0 as int]
            } else {
                no_layout()
            },
            TypeKind::Array(id) => if id.0 < arrays.len() && fuel > 0 {
                let array = arrays[id.0 as int];
                let element = layout_of(table, arrays, array.element, (fuel - 1) as nat);
                Layout::new(
                    element.size.wrapping_mul(array.len),
                    element.align,
                    element.contains_float,
                )
            } else {
                no_layout()
            },
            _ => no_layout(),
        },
    }
}

/// The layout of a field: packing limits its alignment.
#[verifier::allow_in_spec]
pub fn packed_layout(layout: Layout, repr: StructRepr) -> Layout
    returns
        (match repr.kind {
            StructReprKind::Packed => {
                let limit = match repr.align {
                    Some(align) => align,
                    None => 1,
                };
                if layout.align > limit {
                    Layout::new(layout.size, limit, layout.contains_float)
                } else {
                    layout
                }
            },
            _ => layout,
        }),
{
    match repr.kind {
        StructReprKind::Packed => {
            let limit: u32 = match repr.align {
                Some(align) => align,
                None => 1,
            };
            if layout.align > limit {
                Layout::new(layout.size, limit, layout.contains_float)
            } else {
                layout
            }
        },
        _ => layout,
    }
}

/// Whether the field at `a` is laid out before the one at `b`: larger alignment first, then
/// larger size, then source order.
pub open spec fn goes_before(fields: Seq<Layout>, a: usize, b: usize) -> bool {
    let x = fields[a as int];
    let y = fields[b as int];
    x.align > y.align || (x.align == y.align && (x.size > y.size || (x.size == y.size && a < b)))
}

/// The order with one more field put in its place among the first `upto`.
pub open spec fn insert_field(fields: Seq<Layout>, order: Seq<usize>, field: usize, upto: nat) -> Seq<
    usize,
>
    decreases upto,
{
    if upto == 0 || upto > order.len() {
        order.insert(0, field)
    } else if goes_before(fields, order[upto - 1], field) {
        order.insert(upto as int, field)
    } else {
        insert_field(fields, order, field, (upto - 1) as nat)
    }
}

/// The first `count` fields in the order in which they are laid out.
pub open spec fn sorted_fields(fields: Seq<Layout>, count: nat) -> Seq<usize>
    decreases count,
{
    if count == 0 {
        seq![]
    } else {
        let before = sorted_fields(fields, (count - 1) as nat);
        insert_field(fields, before, (count - 1) as usize, before.len())
    }
}

/// The order in which fields are laid out: only those of a struct without a representation of
/// its own are moved.
pub open spec fn field_order(fields: Seq<Layout>, repr: StructRepr) -> Seq<usize> {
    match repr.kind {
        StructReprKind::Default => sorted_fields(fields, fields.len()),
        _ => Seq::new(fields.len(), |i: int| i as usize),
    }
}

/// Where laying out fields has got to.
pub ghost struct Placement {
    pub offset: u32,
    pub align: u32,
    pub contains_float: bool,
    pub offsets: Seq<u32>,
}

/// Places the fields of `order` from position `at` on.
pub open spec fn place_fields(
    fields: Seq<Layout>,
    order: Seq<usize>,
    at: nat,
    done: Placement,
) -> Placement
    decreases order.len() - at,
{
    if at >= order.len() {
        done
    } else {
        let index = order[at as int];
        if index >= fields.len() || index >= done.offsets.len() {
            place_fields(fields, order, at + 1, done)
        } else {
            let field = fields[index as int];
            let offset = align_to(done.offset, field.align);
            place_fields(
                fields,
                order,
                at + 1,
                Placement {
                    offset: offset.wrapping_add(field.size),
                    align: if field.align > done.align {
                        field.align
                    } else {
                        done.align
                    },
                    contains_float: done.contains_float || field.contains_float,
                    offsets: done.offsets.update(index as int, offset),
                },
            )
        }
    }
}

pub open spec fn no_fields(count: nat) -> Placement {
    Placement {
        offset: 0,
        align: 1,
        contains_float: false,
        offsets: Seq::new(count, |i: int| 0u32),
    }
}

/// The alignment of a struct: that of its fields, raised by its representation.
#[verifier::allow_in_spec]
pub fn struct_align(align: u32, repr: StructRepr) -> u32
    returns
        (match (repr.kind, repr.align) {
            (StructReprKind::Packed, _) => align,
            (_, Some(least)) => if least > align {
                least
            } else {
                align
            },
            _ => align,
        }),
{
    match (repr.kind, repr.align) {
        (StructReprKind::Packed, _) => align,
        (_, Some(least)) => if least > align {
            least
        } else {
            align
        },
        _ => align,
    }
}

/// The layout of a struct with fields of the given layouts, and the offsets of the fields.
pub open spec fn lay_out_struct(fields: Seq<Layout>, repr: StructRepr) -> (Layout, Seq<u32>) {
    let placed = place_fields(fields, field_order(fields, repr), 0, no_fields(fields.len()));
    let align = struct_align(placed.align, repr);
    (Layout::new(align_to(placed.offset, align), align, placed.contains_float), placed.offsets)
}

/// The layouts of the fields of a struct.
pub open spec fn field_layouts(
    table: LayoutTable,
    arrays: Seq<ArrayType>,
    fields: Seq<StructField>,
    repr: StructRepr,
) -> Seq<Layout> {
    Seq::new(
        fields.len(),
        |i: int| packed_layout(layout_of(table, arrays, fields[i].typ, arrays.len()), repr),
    )
}

/// The largest size and alignment of the payloads among the first `count` variants.
pub open spec fn payload_layout(
    table: LayoutTable,
    arrays: Seq<ArrayType>,
    variants: Seq<EnumVariant>,
    count: nat,
) -> Layout
    decreases count,
{
    if count == 0 || count > variants.len() {
        no_layout()
    } else {
        let before = payload_layout(table, arrays, variants, (count - 1) as nat);
        match variants[count - 1].payload {
            None => before,
            Some(typ) => {
                let payload = layout_of(table, arrays, typ, arrays.len());
                Layout::new(
                    if payload.size > before.size {
                        payload.size
                    } else {
                        before.size
                    },
                    if payload.align > before.align {
                        payload.align
                    } else {
                        before.align
                    },
                    before.contains_float || payload.contains_float,
                )
            },
        }
    }
}

/// The layout of an enum with the given tag and payload, and the offset of the payload.
pub open spec fn lay_out_enum(tag: (u32, u32), payload: Layout) -> (Layout, u32) {
    let align = if tag.1 > payload.align {
        tag.1
    } else {
        payload.align
    };
    let offset = align_to(tag.0, payload.align);
    (
        Layout::new(
            align_to(offset.wrapping_add(payload.size), align),
            align,
            payload.contains_float,
        ),
        offset,
    )
}

pub open spec fn struct_layout(
    table: LayoutTable,
    arrays: Seq<ArrayType>,
    definition: Struct,
) -> (Layout, Seq<u32>) {
    lay_out_struct(
        field_layouts(table, arrays, definition.fields@, definition.repr),
        definition.repr,
    )
}

pub open spec fn enum_layout(
    table: LayoutTable,
    arrays: Seq<ArrayType>,
    definition: Enum,
) -> (Layout, u32) {
    lay_out_enum(
        definition.repr.layout(),
        payload_layout(table, arrays, definition.variants@, definition.variants@.len()),
    )
}

/// The layouts recomputed from those known.
pub open spec fn refine(
    table: LayoutTable,
    structs: Seq<Struct>,
    enums: Seq<Enum>,
    arrays: Seq<ArrayType>,
) -> LayoutTable {
    LayoutTable {
        structs: Seq::new(structs.len(), |i: int| struct_layout(table, arrays, structs[i]).0),
        enums: Seq::new(enums.len(), |i: int| enum_layout(table, arrays, enums[i]).0),
    }
}

/// The layouts known after `rounds` rounds. A type is settled one round after all it contains.
pub open spec fn layouts_after(
    structs: Seq<Struct>,
    enums: Seq<Enum>,
    arrays: Seq<ArrayType>,
    rounds: nat,
) -> LayoutTable
    decreases rounds,
{
    if rounds == 0 {
        LayoutTable {
            structs: Seq::new(structs.len(), |i: int| no_layout()),
            enums: Seq::new(enums.len(), |i: int| no_layout()),
        }
    } else {
        refine(layouts_after(structs, enums, arrays, (rounds - 1) as nat), structs, enums, arrays)
    }
}

/// The layouts of all types: there are enough rounds for the deepest nesting.
pub open spec fn final_layouts(
    structs: Seq<Struct>,
    enums: Seq<Enum>,
    arrays: Seq<ArrayType>,
) -> LayoutTable {
    layouts_after(structs, enums, arrays, structs.len() + enums.len())
}

/// A struct with its layout and the offsets of its fields filled in.
pub open spec fn with_layout<'hir>(
    definition: Struct<'hir>,
    table: LayoutTable,
    arrays: Seq<ArrayType>,
) -> Struct<'hir> {
    let (layout, offsets) = struct_layout(table, arrays, definition);
    Struct {
        layout,
        fields: slice_of(
            Seq::new(
                definition.fields@.len(),
                |i: int| StructField { offset: offsets[i], ..definition.fields@[i] },
            ),
        ),
        ..definition
    }
}

/// An enum with its layout filled in.
pub open spec fn with_enum_layout<'hir>(
    definition: Enum<'hir>,
    table: LayoutTable,
    arrays: Seq<ArrayType>,
) -> Enum<'hir> {
    let (layout, payload_offset) = enum_layout(table, arrays, definition);
    Enum { layout, payload_offset, ..definition }
}

/// The layouts cached on structs and enums.
pub open spec fn cached_layouts(structs: Seq<Struct>, enums: Seq<Enum>) -> LayoutTable {
    LayoutTable {
        structs: Seq::new(structs.len(), |i: int| structs[i].layout),
        enums: Seq::new(enums.len(), |i: int| enums[i].layout),
    }
}

fn compute_layout(
    structs: &Vec<Layout>,
    enums: &Vec<Layout>,
    arrays: &Vec<ArrayType>,
    typ: Type,
    fuel: usize,
) -> (layout: Layout)
    ensures
        layout == layout_of(
            (LayoutTable { structs: structs@, enums: enums@ }),
            arrays@,
            typ,
            fuel as nat,
        ),
    decreases fuel,
{
    if let Some((size, align)) = scalar_layout(typ) {
        return Layout::new(size, align, typ.is_float());
    }
    match typ.kind() {
        TypeKind::Struct(id) => {
            let index: usize = id.0 as usize;
            if index < structs.len() {
                structs[index]
            } else {
                Layout::new(0, 1, false)
            }
        },
        TypeKind::Enum(id) => {
            let index: usize = id.0 as usize;
            if index < enums.len() {
                enums[index]
            } else {
                Layout::new(0, 1, false)
            }
        },
        TypeKind::Array(id) => {
            let index: usize = id.0 as usize;
            if index < arrays.len() && fuel > 0 {
                let array = arrays[index];
                let element = compute_layout(structs, enums, arrays, array.element, fuel - 1);
                Layout::new(
                    element.size.wrapping_mul(array.len),
                    element.align,
                    element.contains_float,
                )
            } else {
                Layout::new(0, 1, false)
            }
        },
        _ => Layout::new(0, 1, false),
    }
}

fn is_before(fields: &Vec<Layout>, a: usize, b: usize) -> (before: bool)
    requires
        a < fields@.len(),
        b < fields@.len(),
    ensures
        before == goes_before(fields@, a, b),
{
    let x = fields[a];
    let y = fields[b];
    x.align > y.align || (x.align == y.align && (x.size > y.size || (x.size == y.size && a < b)))
}

proof fn lemma_insert_bounds(
    fields: Seq<Layout>,
    order: Seq<usize>,
    field: usize,
    upto: nat,
    len: nat,
)
    requires
        forall|i: int| 0 <= i < order.len() ==> #[trigger] order[i] < len,
        field < len,
    ensures
        forall|i: int|
            0 <= i < insert_field(fields, order, field, upto).len() ==> #[trigger] insert_field(
                fields,
                order,
                field,
                upto,
            )[i] < len,
        insert_field(fields, order, field, upto).len() == order.len() + 1,
    decreases upto,
{
    if !(upto == 0 || upto > order.len()) && !goes_before(fields, order[upto - 1], field) {
        lemma_insert_bounds(fields, order, field, (upto - 1) as nat, len);
    }
}

fn order_fields(fields: &Vec<Layout>, repr: StructRepr) -> (order: Vec<usize>)
    ensures
        order@ == field_order(fields@, repr),
{
    let mut order: Vec<usize> = Vec::new();
    if repr.kind != StructReprKind::Default {
        let mut i: usize = 0;
        while i < fields.len()
            invariant
                i <= fields@.len(),
                order@ =~= Seq::new(i as nat, |i: int| i as usize),
            decreases fields@.len() - i,
        {
            order.push(i);
            i += 1;
        }
        assert(order@ =~= field_order(fields@, repr));
        return order;
    }
    let mut i: usize = 0;
    while i < fields.len()
        invariant
            i <= fields@.len(),
            order@ == sorted_fields(fields@, i as nat),
            order@.len() == i,
            forall|j: int| 0 <= j < order@.len() ==> #[trigger] order@[j] < i,
        decreases fields@.len() - i,
    {
        let mut upto: usize = order.len();
        while upto > 0 && !is_before(fields, order[upto - 1], i)
            invariant
                upto <= order@.len(),
                i < fields@.len(),
                forall|j: int| 0 <= j < order@.len() ==> #[trigger] order@[j] < i,
                insert_field(fields@, order@, i, order@.len()) == insert_field(
                    fields@,
                    order@,
                    i,
                    upto as nat,
                ),
            decreases upto,
        {
            upto -= 1;
        }
        proof {
            lemma_insert_bounds(fields@, order@, i, order@.len(), (i + 1) as nat);
        }
        order.insert(upto, i);
        i += 1;
    }
    order
}

fn assign_offsets(fields: &Vec<Layout>, order: &Vec<usize>, repr: StructRepr) -> (result: (
    Layout,
    Vec<u32>,
))
    requires
        order@ == field_order(fields@, repr),
    ensures
        (result.0, result.1@) == lay_out_struct(fields@, repr),
{
    let mut offset: u32 = 0;
    let mut align: u32 = 1;
    let mut contains_float = false;
    let mut offsets: Vec<u32> = Vec::new();
    let mut i: usize = 0;
    while i < fields.len()
        invariant
            i <= fields@.len(),
            offsets@ =~= no_fields(i as nat).offsets,
        decreases fields@.len() - i,
    {
        offsets.push(0);
        i += 1;
    }
    let mut i: usize = 0;
    while i < order.len()
        invariant
            i <= order@.len(),
            place_fields(fields@, order@, 0, no_fields(fields@.len())) == place_fields(
                fields@,
                order@,
                i as nat,
                (Placement { offset, align, contains_float, offsets: offsets@ }),
            ),
        decreases order@.len() - i,
    {
        let index: usize = order[i];
        if index < fields.len() && index < offsets.len() {
            let field = fields[index];
            let start: u32 = align_to(offset, field.align);
            if field.align > align {
                align = field.align;
            }
            contains_float = contains_float || field.contains_float;
            offsets.set(index, start);
            offset = start.wrapping_add(field.size);
        }
        i += 1;
    }
    let align: u32 = struct_align(align, repr);
    (Layout::new(align_to(offset, align), align, contains_float), offsets)
}

fn layout_struct(
    structs: &Vec<Layout>,
    enums: &Vec<Layout>,
    arrays: &Vec<ArrayType>,
    definition: &Struct,
) -> (result: (Layout, Vec<u32>))
    ensures
        (result.0, result.1@) == struct_layout(
            (LayoutTable { structs: structs@, enums: enums@ }),
            arrays@,
            *definition,
        ),
{
    let ghost table = LayoutTable { structs: structs@, enums: enums@ };
    let mut layouts: Vec<Layout> = Vec::new();
    let mut i: usize = 0;
    while i < definition.fields.len()
        invariant
            i <= definition.fields@.len(),
            table == (LayoutTable { structs: structs@, enums: enums@ }),
            layouts@ =~= field_layouts(
                table,
                arrays@,
                definition.fields@,
                definition.repr,
            ).take(i as int),
        decreases definition.fields@.len() - i,
    {
        let layout = compute_layout(
            structs,
            enums,
            arrays,
            definition.fields[i].typ,
            arrays.len(),
        );
        layouts.push(packed_layout(layout, definition.repr));
        i += 1;
    }
    assert(layouts@ =~= field_layouts(table, arrays@, definition.fields@, definition.repr));
    let order = order_fields(&layouts, definition.repr);
    assign_offsets(&layouts, &order, definition.repr)
}

fn layout_enum(
    structs: &Vec<Layout>,
    enums: &Vec<Layout>,
    arrays: &Vec<ArrayType>,
    definition: &Enum,
) -> (result: (Layout, u32))
    ensures
        result == enum_layout(
            (LayoutTable { structs: structs@, enums: enums@ }),
            arrays@,
            *definition,
        ),
{
    let ghost table = LayoutTable { structs: structs@, enums: enums@ };
    let mut size: u32 = 0;
    let mut align: u32 = 1;
    let mut contains_float = false;
    let mut i: usize = 0;
    while i < definition.variants.len()
        invariant
            i <= definition.variants@.len(),
            table == (LayoutTable { structs: structs@, enums: enums@ }),
            Layout::new(size, align, contains_float) == payload_layout(
                table,
                arrays@,
                definition.variants@,
                i as nat,
            ),
        decreases definition.variants@.len() - i,
    {
        if let Some(typ) = definition.variants[i].payload {
            let payload = compute_layout(structs, enums, arrays, typ, arrays.len());
            if payload.size > size {
                size = payload.size;
            }
            if payload.align > align {
                align = payload.align;
            }
            contains_float = contains_float || payload.contains_float;
        }
        i += 1;
    }
    let tag = definition.repr.layout();
    let whole: u32 = if tag.1 > align {
        tag.1
    } else {
        align
    };
    let offset: u32 = align_to(tag.0, align);
    (
        Layout::new(align_to(offset.wrapping_add(size), whole), whole, contains_float),
        offset,
    )
}

fn refine_layouts(
    known_structs: &Vec<Layout>,
    known_enums: &Vec<Layout>,
    structs: &Vec<Struct>,
    enums: &Vec<Enum>,
    arrays: &Vec<ArrayType>,
) -> (result: (Vec<Layout>, Vec<Layout>))
    ensures
        (LayoutTable { structs: result.0@, enums: result.1@ }) == refine(
            (LayoutTable { structs: known_structs@, enums: known_enums@ }),
            structs@,
            enums@,
            arrays@,
        ),
{
    let ghost table = LayoutTable { structs: known_structs@, enums: known_enums@ };
    let ghost after = refine(table, structs@, enums@, arrays@);
    let mut new_structs: Vec<Layout> = Vec::new();
    let mut i: usize = 0;
    while i < structs.len()
        invariant
            i <= structs@.len(),
            table == (LayoutTable { structs: known_structs@, enums: known_enums@ }),
            after == refine(table, structs@, enums@, arrays@),
            new_structs@ =~= after.structs.take(i as int),
        decreases structs@.len() - i,
    {
        let (layout, _) = layout_struct(known_structs, known_enums, arrays, &structs[i]);
        new_structs.push(layout);
        i += 1;
    }
    let mut new_enums: Vec<Layout> = Vec::new();
    let mut i: usize = 0;
    while i < enums.len()
        invariant
            i <= enums@.len(),
            table == (LayoutTable { structs: known_structs@, enums: known_enums@ }),
            after == refine(table, structs@, enums@, arrays@),
            new_enums@ =~= after.enums.take(i as int),
        decreases enums@.len() - i,
    {
        let (layout, _) = layout_enum(known_structs, known_enums, arrays, &enums[i]);
        new_enums.push(layout);
        i += 1;
    }
    assert(new_structs@ =~= after.structs);
    assert(new_enums@ =~= after.enums);
    (new_structs, new_enums)
}

fn fill_struct<'hir>(definition: Struct<'hir>, layout: Layout, offsets: &Vec<u32>, arena: &'hir Arena) -> (filled:
    Struct<'hir>)
    requires
        offsets@.len() == definition.fields@.len(),
    ensures
        filled == (Struct {
            layout,
            fields: slice_of(
                Seq::new(
                    definition.fields@.len(),
                    |i: int| (StructField { offset: offsets@[i], ..definition.fields@[i] }),
                ),
            ),
            ..definition
        }),
{
    let ghost all = Seq::new(
        definition.fields@.len(),
        |i: int| StructField { offset: offsets@[i], ..definition.fields@[i] },
    );
    let mut fields: Vec<StructField> = Vec::new();
    let mut i: usize = 0;
    while i < definition.fields.len()
        invariant
            i <= definition.fields@.len() == offsets@.len(),
            all == Seq::new(
                definition.fields@.len(),
                |i: int| StructField { offset: offsets@[i], ..definition.fields@[i] },
            ),
            fields@ =~= all.take(i as int),
        decreases definition.fields@.len() - i,
    {
        let field = definition.fields[i];
        fields.push(StructField { offset: offsets[i], ..field });
        i += 1;
    }
    assert(fields@ =~= all);
    Struct { layout, fields: arena.place_slice(&fields), ..definition }
}

proof fn lemma_offsets_len(fields: Seq<Layout>, order: Seq<usize>, at: nat, done: Placement)
    ensures
        place_fields(fields, order, at, done).offsets.len() == done.offsets.len(),
    decreases order.len() - at,
{
    if at < order.len() {
        let index = order[at as int];
        if index >= fields.len() || index >= done.offsets.len() {
            lemma_offsets_len(fields, order, at + 1, done);
        } else {
            let field = fields[index as int];
            let offset = align_to(done.offset, field.align);
            lemma_offsets_len(
                fields,
                order,
                at + 1,
                Placement {
                    offset: offset.wrapping_add(field.size),
                    align: if field.align > done.align {
                        field.align
                    } else {
                        done.align
                    },
                    contains_float: done.contains_float || field.contains_float,
                    offsets: done.offsets.update(index as int, offset),
                },
            );
        }
    }
}

/// Computes the layout of every struct and enum and stores it with them.
pub fn compute_layouts<'hir>(
    structs: &mut Vec<Struct<'hir>>,
    enums: &mut Vec<Enum<'hir>>,
    arrays: &Vec<ArrayType>,
    arena: &'hir Arena,
)
    ensures
        ({
            let table = final_layouts(old(structs)@, old(enums)@, arrays@);
            &&& final(structs)@ == Seq::new(
                old(structs)@.len(),
                |i: int| with_layout(old(structs)@[i], table, arrays@),
            )
            &&& final(enums)@ == Seq::new(
                old(enums)@.len(),
                |i: int| with_enum_layout(old(enums)@[i], table, arrays@),
            )
        }),
{
    let mut known_structs: Vec<Layout> = Vec::new();
    let mut i: usize = 0;
    while i < structs.len()
        invariant
            i <= structs@.len(),
            structs@ == old(structs)@,
            known_structs@ =~= Seq::new(i as nat, |i: int| no_layout()),
        decreases structs@.len() - i,
    {
        known_structs.push(Layout::new(0, 1, false));
        i += 1;
    }
    let mut known_enums: Vec<Layout> = Vec::new();
    let mut i: usize = 0;
    while i < enums.len()
        invariant
            i <= enums@.len(),
            enums@ == old(enums)@,
            known_enums@ =~= Seq::new(i as nat, |i: int| no_layout()),
        decreases enums@.len() - i,
    {
        known_enums.push(Layout::new(0, 1, false));
        i += 1;
    }
    let rounds: u128 = structs.len() as u128 + enums.len() as u128;
    let mut done: u128 = 0;
    while done < rounds
        invariant
            done <= rounds,
            structs@ == old(structs)@,
            enums@ == old(enums)@,
            (LayoutTable { structs: known_structs@, enums: known_enums@ }) == layouts_after(
                structs@,
                enums@,
                arrays@,
                done as nat,
            ),
        decreases rounds - done,
    {
        let (next_structs, next_enums) = refine_layouts(
            &known_structs,
            &known_enums,
            structs,
            enums,
            arrays,
        );
        known_structs = next_structs;
        known_enums = next_enums;
        done += 1;
    }
    let ghost table = final_layouts(structs@, enums@, arrays@);
    let mut i: usize = 0;
    while i < structs.len()
        invariant
            i <= structs@.len() == old(structs)@.len(),
            table == (LayoutTable { structs: known_structs@, enums: known_enums@ }),
            forall|j: int|
                0 <= j < i ==> #[trigger] structs@[j] == with_layout(
                    old(structs)@[j],
                    table,
                    arrays@,
                ),
            forall|j: int| i <= j < structs@.len() ==> #[trigger] structs@[j] == old(structs)@[j],
        decreases structs@.len() - i,
    {
        let definition = structs[i];
        let (layout, offsets) = layout_struct(&known_structs, &known_enums, arrays, &definition);
        proof {
            let fields = field_layouts(table, arrays@, definition.fields@, definition.repr);
            lemma_offsets_len(
                fields,
                field_order(fields, definition.repr),
                0,
                no_fields(fields.len()),
            );
        }
        let filled = fill_struct(definition, layout, &offsets, arena);
        assert(filled.fields == with_layout(definition, table, arrays@).fields);
        structs.set(i, filled);
        i += 1;
    }
    let mut i: usize = 0;
    while i < enums.len()
        invariant
            i <= enums@.len() == old(enums)@.len(),
            table == (LayoutTable { structs: known_structs@, enums: known_enums@ }),
            forall|j: int|
                0 <= j < i ==> #[trigger] enums@[j] == with_enum_layout(
                    old(enums)@[j],
                    table,
                    arrays@,
                ),
            forall|j: int| i <= j < enums@.len() ==> #[trigger] enums@[j] == old(enums)@[j],
        decreases enums@.len() - i,
    {
        let definition = enums[i];
        let (layout, payload_offset) = layout_enum(
            &known_structs,
            &known_enums,
            arrays,
            &definition,
        );
        enums.set(i, Enum { layout, payload_offset, ..definition });
        i += 1;
    }
    assert(structs@ =~= Seq::new(
        old(structs)@.len(),
        |i: int| with_layout(old(structs)@[i], table, arrays@),
    ));
    assert(enums@ =~= Seq::new(
        old(enums)@.len(),
        |i: int| with_enum_layout(old(enums)@[i], table, arrays@),
    ));
}

/// Size and alignment of any type, reading the layouts cached on structs and enums.
pub fn type_layout(
    typ: Type,
    structs: &Vec<Struct>,
    enums: &Vec<Enum>,
    arrays: &Vec<ArrayType>,
) -> (layout: (u32, u32))
    ensures
        ({
            let expected = layout_of(cached_layouts(structs@, enums@), arrays@, typ, arrays@.len());
            layout == (expected.size, expected.align)
        }),
{
    let layout = cached_layout(typ, structs, enums, arrays, arrays.len());
    (layout.size, layout.align)
}

fn cached_layout(
    typ: Type,
    structs: &Vec<Struct>,
    enums: &Vec<Enum>,
    arrays: &Vec<ArrayType>,
    fuel: usize,
) -> (layout: Layout)
    ensures
        layout == layout_of(cached_layouts(structs@, enums@), arrays@, typ, fuel as nat),
    decreases fuel,
{
    if let Some((size, align)) = scalar_layout(typ) {
        return Layout::new(size, align, typ.is_float());
    }
    match typ.kind() {
        TypeKind::Struct(id) => {
            let index: usize = id.0 as usize;
            if index < structs.len() {
                structs[index].layout
            } else {
                Layout::new(0, 1, false)
            }
        },
        TypeKind::Enum(id) => {
            let index: usize = id.0 as usize;
            if index < enums.len() {
                enums[index].layout
            } else {
                Layout::new(0, 1, false)
            }
        },
        TypeKind::Array(id) => {
            let index: usize = id.0 as usize;
            if index < arrays.len() && fuel > 0 {
                let array = arrays[index];
                let element = cached_layout(array.element, structs, enums, arrays, fuel - 1);
                Layout::new(
                    element.size.wrapping_mul(array.len),
                    element.align,
                    element.contains_float,
                )
            } else {
                Layout::new(0, 1, false)
            }
        },
        _ => Layout::new(0, 1, false),
    }
}

/// The struct that a type is or refers to.
pub open spec fn projected_struct(origin: Type) -> Option<StructId> {
    match origin.kind() {
        TypeKind::Struct(id) => Some(id),
        TypeKind::Ref { mutable, to } => match to.kind() {
            RefTargetKind::Struct(id) => Some(id),
            _ => None,
        },
        _ => None,
    }
}

/// The first field of the given name, from position `at` on.
pub open spec fn named_field(fields: Seq<StructField>, name: SymbolId, at: nat) -> Option<
    StructField,
>
    decreases fields.len() - at,
{
    if at >= fields.len() {
        None
    } else if fields[at as int].name == name {
        Some(fields[at as int])
    } else {
        named_field(fields, name, at + 1)
    }
}

/// The field of the given name of a struct, or of the struct that a reference refers to.
pub fn struct_field(origin: Type, field: SymbolId, structs: &Vec<Struct>) -> (found: StructField)
    requires
        projected_struct(origin) matches Some(id) && id.0 < structs@.len() && named_field(
            structs@[id.0 as int].fields@,
            field,
            0,
        ) is Some,
    ensures
        named_field(structs@[(projected_struct(origin)->0).0 as int].fields@, field, 0) == Some(
            found,
        ),
{
    let id = match origin.kind() {
        TypeKind::Struct(id) => id,
        TypeKind::Ref { to, .. } => match to.kind() {
            RefTargetKind::Struct(id) => id,
            _ => StructId(0),
        },
        _ => StructId(0),
    };
    let fields = structs[id.0 as usize].fields;
    let mut i: usize = 0;
    while i < fields.len() && fields[i].name != field
        invariant
            i <= fields@.len(),
            named_field(fields@, field, i as nat) == named_field(fields@, field, 0),
            named_field(fields@, field, 0) is Some,
        decreases fields@.len() - i,
    {
        i += 1;
    }
    fields[i]
}

impl From<Layout> for (u32, u32) {
    fn from(layout: Layout) -> (pair: (u32, u32)) {
        (layout.size, layout.align)
    }
}

impl vstd::std_specs::convert::FromSpecImpl<Layout> for (u32, u32) {
    open spec fn obeys_from_spec() -> bool {
        true
    }

    open spec fn from_spec(layout: Layout) -> (u32, u32) {
        (layout.size, layout.align)
    }
}

} // verus!
