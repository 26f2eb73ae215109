//! What holds of every layout: fields are aligned, within their struct and apart from each
//! other, and layouts settle.

use crate::ast::StructRepr;
use crate::hir::layout::{
    align_to, field_layouts, field_order, final_layouts, goes_before, insert_field, is_aligned,
    is_power_of_two, lay_out_enum, lay_out_struct, layout_of, layouts_after, lemma_align_to,
    no_fields, payload_layout, place_fields, refine, sorted_fields, struct_align, LayoutTable,
    Placement,
};
use crate::hir::tree::{ArrayType, Enum, EnumVariant, Layout, Struct};
use crate::hir::types::{Type, TypeKind};
use vstd::prelude::*;

verus! {

/// Whether an order holds each of the first `count` fields once.
pub open spec fn is_order(order: Seq<usize>, count: nat) -> bool {
    &&& order.len() == count
    &&& forall|i: int| 0 <= i < order.len() ==> #[trigger] order[i] < count
    &&& forall|i: int, j: int| 0 <= i < j < order.len() ==> order[i] != order[j]
}

/// Whether every field comes after those that go before it.
pub open spec fn is_sorted(fields: Seq<Layout>, order: Seq<usize>) -> bool {
    forall|i: int, j: int|
        0 <= i < j < order.len() ==> goes_before(fields, #[trigger] order[i], #[trigger] order[j])
}

proof fn lemma_insert_field(fields: Seq<Layout>, order: Seq<usize>, field: usize, upto: nat)
    requires
        is_order(order, field as nat),
        is_sorted(fields, order),
        upto <= order.len(),
        forall|k: int| upto <= k < order.len() ==> goes_before(fields, field, #[trigger] order[k]),
    ensures
        is_order(insert_field(fields, order, field, upto), (field + 1) as nat),
        is_sorted(fields, insert_field(fields, order, field, upto)),
    decreases upto,
{
    let after = insert_field(fields, order, field, upto);
    if upto == 0 {
        assert forall|i: int, j: int| 0 <= i < j < after.len() implies goes_before(
            fields,
            #[trigger] after[i],
            #[trigger] after[j],
        ) by {
            if i > 0 {
                assert(goes_before(fields, order[i - 1], order[j - 1]));
            } else {
                assert(after[j] == order[j - 1]);
            }
        }
    } else if goes_before(fields, order[upto - 1], field) {
        assert forall|i: int, j: int| 0 <= i < j < after.len() implies goes_before(
            fields,
            #[trigger] after[i],
            #[trigger] after[j],
        ) by {
            if j == upto {
                if i < upto - 1 {
                    assert(goes_before(fields, order[i], order[upto - 1]));
                }
            } else if i == upto {
                assert(after[j] == order[j - 1]);
            } else if i < upto && j < upto {
                assert(goes_before(fields, order[i], order[j]));
            } else if i < upto {
                assert(after[j] == order[j - 1]);
                assert(goes_before(fields, order[i], order[j - 1]));
            } else {
                assert(goes_before(fields, order[i - 1], order[j - 1]));
            }
        }
    } else {
        assert(order[upto - 1] < field);
        assert(goes_before(fields, field, order[upto - 1]));
        lemma_insert_field(fields, order, field, (upto - 1) as nat);
    }
}

proof fn lemma_sorted_fields(fields: Seq<Layout>, count: nat)
    requires
        count <= usize::MAX,
    ensures
        is_order(sorted_fields(fields, count), count),
        is_sorted(fields, sorted_fields(fields, count)),
    decreases count,
{
    if count > 0 {
        lemma_sorted_fields(fields, (count - 1) as nat);
        let before = sorted_fields(fields, (count - 1) as nat);
        lemma_insert_field(fields, before, (count - 1) as usize, before.len());
    }
}

/// Every field is laid out once: those of larger alignment first, then those of larger size, then
/// in source order, unless the struct has a representation of its own, which keeps source order.
pub proof fn lemma_field_order(fields: Seq<Layout>, repr: StructRepr)
    requires
        fields.len() <= usize::MAX,
    ensures
        is_order(field_order(fields, repr), fields.len()),
        !(repr.kind is Default) ==> forall|i: int|
            0 <= i < fields.len() ==> #[trigger] field_order(fields, repr)[i] == i,
        repr.kind is Default ==> is_sorted(fields, field_order(fields, repr)),
{
    if repr.kind is Default {
        lemma_sorted_fields(fields, fields.len());
    }
}

/// The most space that the fields from position `at` of an order on can take.
pub open spec fn space(fields: Seq<Layout>, order: Seq<usize>, at: nat) -> nat
    decreases order.len() - at,
{
    if at >= order.len() {
        0
    } else {
        let field = fields[order[at as int] as int];
        field.size as nat + field.align as nat + space(fields, order, at + 1)
    }
}

/// Whether every alignment is a power of two.
pub open spec fn aligned_fields(fields: Seq<Layout>) -> bool {
    forall|i: int| 0 <= i < fields.len() ==> is_power_of_two((#[trigger] fields[i]).align)
}

/// Whether a field stands where it may: aligned, at or after `from` and ended by `to`.
pub open spec fn fits(field: Layout, offset: u32, from: u32, to: u32) -> bool {
    is_aligned(offset, field.align) && from <= offset && offset + field.size <= to
}

proof fn lemma_place_fields(fields: Seq<Layout>, order: Seq<usize>, at: nat, done: Placement)
    requires
        is_order(order, fields.len()),
        aligned_fields(fields),
        is_power_of_two(done.align),
        done.offsets.len() == fields.len(),
        at <= order.len(),
        done.offset + space(fields, order, at) <= u32::MAX,
    ensures
        ({
            let placed = place_fields(fields, order, at, done);
            &&& done.offset <= placed.offset <= done.offset + space(fields, order, at)
            &&& placed.offsets.len() == fields.len()
            &&& is_power_of_two(placed.align)
            &&& done.align <= placed.align
            &&& forall|k: int| 0 <= k < at ==> placed.offsets[#[trigger] order[k] as int]
                == done.offsets[order[k] as int]
            &&& forall|k: int|
                at <= k < order.len() ==> {
                    let index = #[trigger] order[k] as int;
                    &&& fits(fields[index], placed.offsets[index], done.offset, placed.offset)
                    &&& fields[index].align <= placed.align
                }
            &&& forall|j: int, k: int|
                at <= j < k < order.len() ==> placed.offsets[#[trigger] order[j] as int]
                    + fields[order[j] as int].size <= placed.offsets[#[trigger] order[k] as int]
        }),
    decreases order.len() - at,
{
    if at < order.len() {
        let index = order[at as int];
        let field = fields[index as int];
        let offset = align_to(done.offset, field.align);
        lemma_align_to(done.offset, field.align);
        let next = Placement {
            offset: offset.wrapping_add(field.size),
            align: if field.align > done.align {
                field.align
            } else {
                done.align
            },
            contains_float: done.contains_float || field.contains_float,
            offsets: done.offsets.update(index as int, offset),
        };
        assert(next.offset == offset + field.size);
        lemma_place_fields(fields, order, at + 1, next);
        let placed = place_fields(fields, order, at + 1, next);
        assert(placed == place_fields(fields, order, at, done));
        assert(placed.offsets[index as int] == offset);
        assert forall|k: int| 0 <= k < at implies placed.offsets[#[trigger] order[k] as int]
            == done.offsets[order[k] as int] by {
            assert(order[k] != index);
        }
        assert forall|k: int| at <= k < order.len() implies {
            let index = #[trigger] order[k] as int;
            &&& fits(fields[index], placed.offsets[index], done.offset, placed.offset)
            &&& fields[index].align <= placed.align
        } by {
            if k == at {
                assert(fits(field, offset, done.offset, placed.offset));
            } else {
                let other = order[k] as int;
                assert(fits(fields[other], placed.offsets[other], next.offset, placed.offset));
            }
        }
        assert forall|j: int, k: int|
            at <= j < k < order.len() implies placed.offsets[#[trigger] order[j] as int]
            + fields[order[j] as int].size <= placed.offsets[#[trigger] order[k] as int] by {
            if j == at {
                let other = order[k] as int;
                assert(fits(fields[other], placed.offsets[other], next.offset, placed.offset));
            }
        }
    }
}

/// Where in an order a field stands.
proof fn lemma_in_order(order: Seq<usize>, count: nat, field: int) -> (at: int)
    requires
        is_order(order, count),
        0 <= field < count,
    ensures
        0 <= at < order.len(),
        order[at] == field,
{
    if forall|k: int| 0 <= k < order.len() ==> order[k] != field {
        let taken = order.map_values(|index: usize| index as int);
        assert(taken.no_duplicates());
        taken.unique_seq_to_set();
        let all = Set::<int>::new(|i: int| 0 <= i < count);
        vstd::set_lib::lemma_int_range(0, count as int);
        assert(all =~= vstd::set_lib::set_int_range(0, count as int));
        let rest = all.remove(field);
        assert forall|i: int| taken.to_set().contains(i) implies rest.contains(i) by {
            let k = choose|k: int| 0 <= k < taken.len() && taken[k] == i;
            assert(order[k] < count);
            assert(order[k] != field);
        }
        vstd::set_lib::lemma_len_subset(taken.to_set(), rest);
        assert(false);
    }
    choose|k: int| 0 <= k < order.len() && order[k] == field
}

/// In every struct whose fields fit in the address space, each field is aligned and within the
/// struct, no two fields overlap, and the size is a multiple of the alignment, which is not less
/// than that of any field.
pub proof fn lemma_struct_layout(fields: Seq<Layout>, repr: StructRepr)
    requires
        fields.len() <= usize::MAX,
        aligned_fields(fields),
        repr.align matches Some(align) ==> is_power_of_two(align),
        space(fields, field_order(fields, repr), 0) + struct_align(
            place_fields(fields, field_order(fields, repr), 0, no_fields(fields.len())).align,
            repr,
        ) <= u32::MAX,
    ensures
        ({
            let (layout, offsets) = lay_out_struct(fields, repr);
            &&& offsets.len() == fields.len()
            &&& is_power_of_two(layout.align)
            &&& is_aligned(layout.size, layout.align)
            &&& forall|i: int|
                0 <= i < fields.len() ==> {
                    &&& fits(#[trigger] fields[i], offsets[i], 0, layout.size)
                    &&& fields[i].align <= layout.align
                }
            &&& forall|i: int, j: int|
                0 <= i < fields.len() && 0 <= j < fields.len() && i != j ==> {
                    ||| offsets[i] + (#[trigger] fields[i]).size <= offsets[j]
                    ||| offsets[j] + (#[trigger] fields[j]).size <= offsets[i]
                }
        }),
{
    let order = field_order(fields, repr);
    lemma_field_order(fields, repr);
    assert(is_power_of_two(1u32)) by (bit_vector);
    lemma_place_fields(fields, order, 0, no_fields(fields.len()));
    let placed = place_fields(fields, order, 0, no_fields(fields.len()));
    let (layout, offsets) = lay_out_struct(fields, repr);
    lemma_align_to(placed.offset, struct_align(placed.align, repr));
    assert forall|i: int| 0 <= i < fields.len() implies {
        &&& fits(#[trigger] fields[i], offsets[i], 0, layout.size)
        &&& fields[i].align <= layout.align
    } by {
        let k = lemma_in_order(order, fields.len(), i);
        assert(order[k] as int == i);
    }
    assert forall|i: int, j: int|
        0 <= i < fields.len() && 0 <= j < fields.len() && i != j implies {
        ||| offsets[i] + (#[trigger] fields[i]).size <= offsets[j]
        ||| offsets[j] + (#[trigger] fields[j]).size <= offsets[i]
    } by {
        let a = lemma_in_order(order, fields.len(), i);
        let b = lemma_in_order(order, fields.len(), j);
        assert(order[a] as int == i);
        assert(order[b] as int == j);
        if a < b {
            assert(placed.offsets[order[a] as int] + fields[order[a] as int].size
                <= placed.offsets[order[b] as int]);
        } else {
            assert(placed.offsets[order[b] as int] + fields[order[b] as int].size
                <= placed.offsets[order[a] as int]);
        }
    }
}

/// In every enum that fits in the address space, the payload is aligned, stands behind the tag
/// and within the enum, and the size is a multiple of the alignment.
pub proof fn lemma_enum_layout(tag: (u32, u32), payload: Layout)
    requires
        is_power_of_two(tag.1),
        is_power_of_two(payload.align),
        tag.0 + payload.align + payload.size + (if tag.1 > payload.align {
            tag.1
        } else {
            payload.align
        }) <= u32::MAX,
    ensures
        ({
            let (layout, offset) = lay_out_enum(tag, payload);
            &&& is_aligned(layout.size, layout.align)
            &&& tag.1 <= layout.align
            &&& payload.align <= layout.align
            &&& fits(payload, offset, tag.0, layout.size)
        }),
{
    lemma_align_to(tag.0, payload.align);
    let offset = align_to(tag.0, payload.align);
    let align = if tag.1 > payload.align {
        tag.1
    } else {
        payload.align
    };
    lemma_align_to((offset + payload.size) as u32, align);
}

/// Whether the structs and enums that a type holds by value have lower ranks than `rank`.
pub open spec fn below(
    typ: Type,
    arrays: Seq<ArrayType>,
    struct_ranks: Seq<nat>,
    enum_ranks: Seq<nat>,
    rank: nat,
    fuel: nat,
) -> bool
    decreases fuel,
{
    match typ.kind() {
        TypeKind::Struct(id) => id.0 < struct_ranks.len() ==> struct_ranks[id.0 as int] < rank,
        TypeKind::Enum(id) => id.0 < enum_ranks.len() ==> enum_ranks[id.0 as int] < rank,
        TypeKind::Array(id) => id.0 < arrays.len() && fuel > 0 ==> below(
            arrays[id.0 as int].element,
            arrays,
            struct_ranks,
            enum_ranks,
            rank,
            (fuel - 1) as nat,
        ),
        _ => true,
    }
}

/// Whether no type holds itself by value: every struct and enum has a rank above those of all it
/// holds, and there are no more ranks than types.
pub open spec fn well_founded(
    structs: Seq<Struct>,
    enums: Seq<Enum>,
    arrays: Seq<ArrayType>,
    struct_ranks: Seq<nat>,
    enum_ranks: Seq<nat>,
) -> bool {
    &&& struct_ranks.len() == structs.len()
    &&& enum_ranks.len() == enums.len()
    &&& forall|i: int|
        0 <= i < structs.len() ==> #[trigger] struct_ranks[i] < structs.len() + enums.len()
    &&& forall|i: int|
        0 <= i < enums.len() ==> #[trigger] enum_ranks[i] < structs.len() + enums.len()
    &&& forall|i: int, f: int|
        0 <= i < structs.len() && 0 <= f < structs[i].fields@.len() ==> below(
            (#[trigger] structs[i].fields@[f]).typ,
            arrays,
            struct_ranks,
            enum_ranks,
            struct_ranks[i],
            arrays.len(),
        )
    &&& forall|i: int, v: int|
        0 <= i < enums.len() && 0 <= v < enums[i].variants@.len() ==> match (
        #[trigger] enums[i].variants@[v]).payload {
            Some(typ) => below(
                typ,
                arrays,
                struct_ranks,
                enum_ranks,
                enum_ranks[i],
                arrays.len(),
            ),
            None => true,
        }
}

/// Whether two tables agree on all types of lower ranks than `rank`.
spec fn agree_below(
    a: LayoutTable,
    b: LayoutTable,
    struct_ranks: Seq<nat>,
    enum_ranks: Seq<nat>,
    rank: nat,
) -> bool {
    &&& a.structs.len() == struct_ranks.len() == b.structs.len()
    &&& a.enums.len() == enum_ranks.len() == b.enums.len()
    &&& forall|i: int|
        0 <= i < struct_ranks.len() && struct_ranks[i] < rank ==> #[trigger] a.structs[i]
            == b.structs[i]
    &&& forall|i: int|
        0 <= i < enum_ranks.len() && enum_ranks[i] < rank ==> #[trigger] a.enums[i] == b.enums[i]
}

proof fn lemma_same_layout(
    a: LayoutTable,
    b: LayoutTable,
    arrays: Seq<ArrayType>,
    struct_ranks: Seq<nat>,
    enum_ranks: Seq<nat>,
    typ: Type,
    rank: nat,
    fuel: nat,
)
    requires
        agree_below(a, b, struct_ranks, enum_ranks, rank),
        below(typ, arrays, struct_ranks, enum_ranks, rank, fuel),
    ensures
        layout_of(a, arrays, typ, fuel) == layout_of(b, arrays, typ, fuel),
    decreases fuel,
{
    match typ.kind() {
        TypeKind::Array(id) => if id.0 < arrays.len() && fuel > 0 {
            lemma_same_layout(
                a,
                b,
                arrays,
                struct_ranks,
                enum_ranks,
                arrays[id.0 as int].element,
                rank,
                (fuel - 1) as nat,
            );
        },
        TypeKind::Struct(id) => if id.0 < struct_ranks.len() {
            assert(a.structs[id.0 as int] == b.structs[id.0 as int]);
        },
        TypeKind::Enum(id) => if id.0 < enum_ranks.len() {
            assert(a.enums[id.0 as int] == b.enums[id.0 as int]);
        },
        _ => {},
    }
}

proof fn lemma_same_payload(
    a: LayoutTable,
    b: LayoutTable,
    arrays: Seq<ArrayType>,
    struct_ranks: Seq<nat>,
    enum_ranks: Seq<nat>,
    variants: Seq<EnumVariant>,
    count: nat,
    rank: nat,
)
    requires
        agree_below(a, b, struct_ranks, enum_ranks, rank),
        forall|v: int|
            0 <= v < variants.len() ==> match (#[trigger] variants[v]).payload {
                Some(typ) => below(typ, arrays, struct_ranks, enum_ranks, rank, arrays.len()),
                None => true,
            },
    ensures
        payload_layout(a, arrays, variants, count) == payload_layout(b, arrays, variants, count),
    decreases count,
{
    if count > 0 && count <= variants.len() {
        lemma_same_payload(
            a,
            b,
            arrays,
            struct_ranks,
            enum_ranks,
            variants,
            (count - 1) as nat,
            rank,
        );
        match variants[count - 1].payload {
            Some(typ) => lemma_same_layout(
                a,
                b,
                arrays,
                struct_ranks,
                enum_ranks,
                typ,
                rank,
                arrays.len(),
            ),
            None => {},
        }
    }
}

proof fn lemma_settled(
    structs: Seq<Struct>,
    enums: Seq<Enum>,
    arrays: Seq<ArrayType>,
    struct_ranks: Seq<nat>,
    enum_ranks: Seq<nat>,
    rounds: nat,
    more: nat,
)
    requires
        well_founded(structs, enums, arrays, struct_ranks, enum_ranks),
        rounds <= more,
    ensures
        agree_below(
            layouts_after(structs, enums, arrays, rounds),
            layouts_after(structs, enums, arrays, more),
            struct_ranks,
            enum_ranks,
            rounds,
        ),
    decreases rounds,
{
    let a = layouts_after(structs, enums, arrays, rounds);
    let b = layouts_after(structs, enums, arrays, more);
    if rounds > 0 {
        let before_a = layouts_after(structs, enums, arrays, (rounds - 1) as nat);
        let before_b = layouts_after(structs, enums, arrays, (more - 1) as nat);
        lemma_settled(
            structs,
            enums,
            arrays,
            struct_ranks,
            enum_ranks,
            (rounds - 1) as nat,
            (more - 1) as nat,
        );
        assert forall|i: int| 0 <= i < struct_ranks.len() && struct_ranks[i] < rounds implies
            #[trigger] a.structs[i] == b.structs[i] by {
            let definition = structs[i];
            let left = field_layouts(before_a, arrays, definition.fields@, definition.repr);
            let right = field_layouts(before_b, arrays, definition.fields@, definition.repr);
            assert forall|f: int| 0 <= f < definition.fields@.len() implies #[trigger] left[f]
                == right[f] by {
                assert(below(
                    structs[i].fields@[f].typ,
                    arrays,
                    struct_ranks,
                    enum_ranks,
                    struct_ranks[i],
                    arrays.len(),
                ));
                lemma_same_layout(
                    before_a,
                    before_b,
                    arrays,
                    struct_ranks,
                    enum_ranks,
                    definition.fields@[f].typ,
                    struct_ranks[i],
                    arrays.len(),
                );
            }
            assert(left =~= right);
        }
        assert forall|i: int| 0 <= i < enum_ranks.len() && enum_ranks[i] < rounds implies
            #[trigger] a.enums[i] == b.enums[i] by {
            let variants = enums[i].variants@;
            assert forall|v: int| 0 <= v < variants.len() implies match (
            #[trigger] variants[v]).payload {
                Some(typ) => below(
                    typ,
                    arrays,
                    struct_ranks,
                    enum_ranks,
                    enum_ranks[i],
                    arrays.len(),
                ),
                None => true,
            } by {
                assert(enums[i].variants@[v] == variants[v]);
            }
            lemma_same_payload(
                before_a,
                before_b,
                arrays,
                struct_ranks,
                enum_ranks,
                variants,
                variants.len(),
                enum_ranks[i],
            );
        }
    }
}

/// The layouts of types that do not hold themselves by value are settled: laying everything out
/// once more from them gives the same layouts.
pub proof fn lemma_layouts_settled(
    structs: Seq<Struct>,
    enums: Seq<Enum>,
    arrays: Seq<ArrayType>,
    struct_ranks: Seq<nat>,
    enum_ranks: Seq<nat>,
)
    requires
        well_founded(structs, enums, arrays, struct_ranks, enum_ranks),
    ensures
        refine(final_layouts(structs, enums, arrays), structs, enums, arrays) == final_layouts(
            structs,
            enums,
            arrays,
        ),
{
    let rounds = structs.len() + enums.len();
    let last = final_layouts(structs, enums, arrays);
    let next = refine(last, structs, enums, arrays);
    assert(next == layouts_after(structs, enums, arrays, rounds + 1));
    lemma_settled(structs, enums, arrays, struct_ranks, enum_ranks, rounds, rounds + 1);
    assert(last.structs.len() == structs.len());
    assert(next.structs =~= last.structs);
    assert(next.enums =~= last.enums);
}

} // verus!
