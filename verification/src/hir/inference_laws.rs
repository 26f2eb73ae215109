//! Why no inference variable is left in a body once it is settled, at any depth of any type.

use crate::arena::slice_of;
use crate::hir::arrays::Arrays;
use crate::hir::body::Body;
use crate::hir::constants::{lemma_constant_position, with_constant};
use crate::hir::growth::{extends, lemma_extends_keeps};
use crate::hir::infer::Inference;
use crate::hir::mono::{rewrite_all, Instance};
use crate::hir::program::Program;
use crate::hir::scope::Names;
use crate::hir::stmt::{resolve_deep, resolve_list, resolve_locals, resolve_node, resolve_nodes};
use crate::hir::tree::{ArrayType, ConstTree, FunctionId, FunctionTree, Local, Node};
use crate::hir::types::{ArrayId, RefTarget, Type, TypeKind};
use vstd::prelude::*;

verus! {

/// No inference variable shows up in a type when looking `depth` levels deep into it.
pub open spec fn settled(arrays: Seq<ArrayType>, typ: Type, depth: nat) -> bool
    decreases depth,
{
    depth == 0 || match typ.kind() {
        TypeKind::Infer(_) => false,
        TypeKind::Array(id) => if id.0 < arrays.len() {
            settled(arrays, arrays[id.0 as int].element, (depth - 1) as nat)
        } else {
            false
        },
        TypeKind::Slice { element, .. } => settled(
            arrays,
            Type::from_target(element),
            (depth - 1) as nat,
        ),
        TypeKind::Ref { to, .. } => settled(arrays, Type::from_target(to), (depth - 1) as nat),
        _ => true,
    }
}

/// A type holds no inference variable.
pub open spec fn concrete(arrays: Seq<ArrayType>, typ: Type) -> bool {
    forall|depth: nat| #[trigger] settled(arrays, typ, depth)
}

/// The types known of an expression hold no inference variable.
pub open spec fn concrete_node<'hir>(arrays: Seq<ArrayType>, node: Node<'hir>) -> bool {
    &&& concrete(arrays, node.typ)
    &&& node.args matches Some(args) ==> forall|i: int|
        0 <= i < args@.len() ==> concrete(arrays, #[trigger] args@[i])
}

impl<'hir> Body<'hir> {
    /// No type of the body holds an inference variable.
    pub open spec fn all_concrete(self) -> bool {
        &&& forall|i: int|
            0 <= i < self.nodes.len() ==> concrete_node(
                self.names.arrays.types,
                #[trigger] self.nodes[i],
            )
        &&& forall|i: int|
            0 <= i < self.locals.len() ==> concrete(
                self.names.arrays.types,
                (#[trigger] self.locals[i]).typ,
            )
    }
}

/// No type of a function's body holds an inference variable.
pub open spec fn concrete_function<'hir>(arrays: Seq<ArrayType>, function: FunctionTree<'hir>) -> bool {
    &&& forall|i: int|
        0 <= i < function.nodes.len() ==> concrete_node(arrays, #[trigger] function.nodes[i])
    &&& forall|i: int|
        0 <= i < function.locals.len() ==> concrete(arrays, (#[trigger] function.locals[i]).typ)
}

/// No type of any of the bodies holds an inference variable.
pub open spec fn concrete_functions<'hir>(
    arrays: Seq<ArrayType>,
    functions: Seq<FunctionTree<'hir>>,
) -> bool {
    forall|i: int| 0 <= i < functions.len() ==> concrete_function(arrays, #[trigger] functions[i])
}

/// No type known of any of the expressions holds an inference variable.
pub open spec fn concrete_nodes<'hir>(arrays: Seq<ArrayType>, nodes: Seq<Node<'hir>>) -> bool {
    forall|i: int| 0 <= i < nodes.len() ==> concrete_node(arrays, #[trigger] nodes[i])
}

/// No type of any of the constants' initialisers holds an inference variable.
#[verifier::opaque]
pub open spec fn concrete_constants<'hir>(
    arrays: Seq<ArrayType>,
    constants: Seq<ConstTree<'hir>>,
) -> bool {
    forall|i: int|
        0 <= i < constants.len() ==> concrete_nodes(
            arrays,
            (#[trigger] constants[i]).typeck.nodes@,
        )
}

impl<'hir> Names<'hir> {
    /// No type of the constants so far holds an inference variable.
    pub open spec fn constants_concrete(self) -> bool {
        concrete_constants(self.arrays.types, self.constants)
    }
}

impl<'hir> Program<'hir> {
    /// No type of the program's functions and constants holds an inference variable.
    pub open spec fn all_concrete(self) -> bool {
        &&& concrete_functions(self.arrays, self.functions)
        &&& concrete_constants(self.arrays, self.constants)
    }
}

/// Every type concrete before is concrete after.
#[verifier::opaque]
pub open spec fn keeps(before: Arrays, after: Arrays) -> bool {
    forall|typ: Type| concrete(before.types, typ) ==> #[trigger] concrete(after.types, typ)
}

pub(crate) broadcast proof fn lemma_keeps_same(arrays: Arrays)
    ensures
        #[trigger] keeps(arrays, arrays),
{
    reveal(keeps);
}

pub(crate) broadcast proof fn lemma_keeps_trans(a: Arrays, b: Arrays, c: Arrays)
    requires
        #[trigger] keeps(a, b),
        #[trigger] keeps(b, c),
    ensures
        keeps(a, c),
{
    reveal(keeps);
}

proof fn lemma_interned_depth(arrays: Arrays, element: Type, len: u32, typ: Type, depth: nat)
    requires
        settled(arrays.types, typ, depth),
    ensures
        settled(arrays.intern(element, len).0.types, typ, depth),
    decreases depth,
{
    if depth > 0 {
        let less = (depth - 1) as nat;
        match typ.kind() {
            TypeKind::Array(id) => if let Some(array) = arrays.find(id) {
                lemma_interned_depth(arrays, element, len, array.element, less);
            },
            TypeKind::Slice { element: inner, .. } => {
                lemma_interned_depth(arrays, element, len, Type::from_target(inner), less);
            },
            TypeKind::Ref { to, .. } => {
                lemma_interned_depth(arrays, element, len, Type::from_target(to), less);
            },
            _ => {},
        }
    }
}

/// Interning an array type keeps concrete types concrete.
pub(crate) broadcast proof fn lemma_intern_keeps(arrays: Arrays, element: Type, len: u32)
    ensures
        keeps(arrays, (#[trigger] arrays.intern(element, len)).0),
{
    reveal(keeps);
    let after = arrays.intern(element, len).0;
    assert forall|typ: Type| concrete(arrays.types, typ) implies #[trigger] concrete(after.types, typ) by {
        assert forall|depth: nat| #[trigger] settled(after.types, typ, depth) by {
            assert(settled(arrays.types, typ, depth));
            lemma_interned_depth(arrays, element, len, typ, depth);
        }
    }
}

proof fn lemma_parts(arrays: Arrays, typ: Type)
    requires
        concrete(arrays.types, typ),
    ensures
        match typ.kind() {
            TypeKind::Infer(_) => false,
            TypeKind::Array(id) => match arrays.find(id) {
                Some(array) => concrete(arrays.types, array.element),
                None => false,
            },
            TypeKind::Slice { element, .. } => concrete(arrays.types, Type::from_target(element)),
            TypeKind::Ref { to, .. } => concrete(arrays.types, Type::from_target(to)),
            _ => true,
        },
{
    assert(settled(arrays.types, typ, 1));
    match typ.kind() {
        TypeKind::Array(id) => if let Some(array) = arrays.find(id) {
            assert forall|depth: nat| #[trigger] settled(arrays.types, array.element, depth) by {
                assert(settled(arrays.types, typ, depth + 1));
            }
        },
        TypeKind::Slice { element, .. } => {
            assert forall|depth: nat| #[trigger]
                settled(arrays.types, Type::from_target(element), depth) by {
                assert(settled(arrays.types, typ, depth + 1));
            }
        },
        TypeKind::Ref { to, .. } => {
            assert forall|depth: nat| #[trigger] settled(arrays.types, Type::from_target(to), depth) by {
                assert(settled(arrays.types, typ, depth + 1));
            }
        },
        _ => {},
    }
}

proof fn lemma_pinned_depth(arrays: Arrays, id: ArrayId, element: Type, typ: Type, depth: nat)
    requires
        concrete(arrays.types, element),
        concrete(arrays.types, typ),
    ensures
        settled(arrays.resolve(id, element).types, typ, depth),
    decreases depth,
{
    if depth > 0 {
        let less = (depth - 1) as nat;
        lemma_parts(arrays, typ);
        match typ.kind() {
            TypeKind::Array(other) => if let Some(array) = arrays.find(other) {
                if other.0 == id.0 {
                    lemma_pinned_depth(arrays, id, element, element, less);
                } else {
                    lemma_pinned_depth(arrays, id, element, array.element, less);
                }
            },
            TypeKind::Slice { element: inner, .. } => {
                lemma_pinned_depth(arrays, id, element, Type::from_target(inner), less);
            },
            TypeKind::Ref { to, .. } => {
                lemma_pinned_depth(arrays, id, element, Type::from_target(to), less);
            },
            _ => {},
        }
    }
}

/// Pinning the element of an array to a concrete type keeps concrete types concrete, and makes the
/// array concrete.
proof fn lemma_pinned(arrays: Arrays, id: ArrayId, element: Type)
    requires
        id.0 < arrays.types.len(),
        concrete(arrays.types, element),
    ensures
        keeps(arrays, arrays.resolve(id, element)),
        forall|typ: Type|
            typ.kind() == TypeKind::Array(id) ==> #[trigger] concrete(
                arrays.resolve(id, element).types,
                typ,
            ),
{
    reveal(keeps);
    let after = arrays.resolve(id, element);
    assert forall|typ: Type| concrete(arrays.types, typ) implies #[trigger] concrete(after.types, typ) by {
        assert forall|depth: nat| #[trigger] settled(after.types, typ, depth) by {
            lemma_pinned_depth(arrays, id, element, typ, depth);
        }
    }
    assert(concrete(after.types, element));
    assert forall|typ: Type| typ.kind() == TypeKind::Array(id) implies #[trigger] concrete(
        after.types,
        typ,
    ) by {
        assert forall|depth: nat| #[trigger] settled(after.types, typ, depth) by {
            if depth > 0 {
                assert(settled(after.types, element, (depth - 1) as nat));
            }
        }
    }
}

/// How the table and a type come out of settling the type.
pub open spec fn settles(before: Arrays, typ: Type, outcome: (Arrays, Type)) -> bool {
    let (after, result) = outcome;
    &&& after.types.len() == before.types.len()
    &&& keeps(before, after)
    &&& forall|i: int|
        0 <= i < before.types.len() ==> #[trigger] after.types[i] == before.types[i] || concrete(
            after.types,
            after.types[i].element,
        )
    &&& concrete(after.types, result)
    &&& typ.fits_target() ==> result.fits_target()
    &&& !(typ.kind() is Ref) && !(typ.kind() is Slice) ==> !(result.kind() is Ref) && !(
    result.kind() is Slice)
}

/// An error holds no inference variable.
proof fn lemma_error(arrays: Arrays, typ: Type)
    ensures
        settles(arrays, typ, (arrays, Type::new(TypeKind::Error))),
{
    broadcast use lemma_keeps_same;

    let result = Type::new(TypeKind::Error);
    result.lemma_targets();
    assert forall|depth: nat| #[trigger] settled(arrays.types, result, depth) by {}
}

proof fn lemma_leaf(infer: Inference, arrays: Arrays, typ: Type)
    requires
        !(typ.kind() is Array),
        !(typ.kind() is Slice),
        !(typ.kind() is Ref),
    ensures
        settles(arrays, typ, (arrays, infer.resolve_or_default(typ))),
{
    broadcast use lemma_keeps_same;

    let result = infer.resolve_or_default(typ);
    Type::lemma_round_trip(TypeKind::I32);
    result.lemma_targets();
    assert forall|depth: nat| #[trigger] settled(arrays.types, result, depth) by {}
}

/// A type that is settled holds no inference variable at any depth, and concrete types stay so.
pub(crate) proof fn lemma_deep(infer: Inference, arrays: Arrays, typ: Type, fuel: nat)
    ensures
        settles(arrays, typ, resolve_deep(infer, arrays, typ, fuel)),
    decreases fuel,
{
    typ.lemma_targets();
    if fuel == 0 && (typ.kind() is Array || typ.kind() is Slice || typ.kind() is Ref) {
        lemma_error(arrays, typ);
    } else {
        match typ.kind() {
            TypeKind::Array(id) => match arrays.find(id) {
                None => {
                    lemma_error(arrays, typ);
                },
                Some(array) => {
                    let less = (fuel - 1) as nat;
                    lemma_deep(infer, arrays, array.element, less);
                    lemma_array(infer, arrays, typ, id, fuel);
                },
            },
            TypeKind::Slice { mutable, element } => {
                let inner = Type::from_target(element);
                let less = (fuel - 1) as nat;
                lemma_deep(infer, arrays, inner, less);
                let (after, held) = resolve_deep(infer, arrays, inner, less);
                held.lemma_pointed(mutable);
                let result = Type::slice(RefTarget::from_type(held)->0, mutable);
                result.lemma_targets();
                assert forall|depth: nat| #[trigger] settled(after.types, result, depth) by {
                    if depth > 0 {
                        lemma_same_kind(after, held, result, (depth - 1) as nat);
                    }
                }
            },
            TypeKind::Ref { mutable, to } => {
                let inner = Type::from_target(to);
                let less = (fuel - 1) as nat;
                lemma_deep(infer, arrays, inner, less);
                let (after, held) = resolve_deep(infer, arrays, inner, less);
                held.lemma_pointed(mutable);
                let result = Type::refer(RefTarget::from_type(held)->0, mutable);
                result.lemma_targets();
                assert forall|depth: nat| #[trigger] settled(after.types, result, depth) by {
                    if depth > 0 {
                        lemma_same_kind(after, held, result, (depth - 1) as nat);
                    }
                }
            },
            _ => {
                lemma_leaf(infer, arrays, typ);
            },
        }
    }
}

/// What a reference or slice is of is settled as the type it was made of.
proof fn lemma_same_kind(arrays: Arrays, held: Type, pointer: Type, depth: nat)
    requires
        concrete(arrays.types, held),
        match pointer.kind() {
            TypeKind::Slice { element, .. } => Type::from_target(element).kind() == held.kind(),
            TypeKind::Ref { to, .. } => Type::from_target(to).kind() == held.kind(),
            _ => false,
        },
    ensures
        settled(arrays.types, pointer, depth + 1),
{
    assert(settled(arrays.types, held, depth));
    assert(settled(arrays.types, pointer, depth + 1) == match pointer.kind() {
        TypeKind::Slice { element, .. } => settled(arrays.types, Type::from_target(element), depth),
        TypeKind::Ref { to, .. } => settled(arrays.types, Type::from_target(to), depth),
        _ => false,
    });
    let inner = match pointer.kind() {
        TypeKind::Slice { element, .. } => Type::from_target(element),
        TypeKind::Ref { to, .. } => Type::from_target(to),
        _ => held,
    };
    assert(settled(arrays.types, inner, depth) == settled(arrays.types, held, depth));
}

proof fn lemma_array(infer: Inference, arrays: Arrays, typ: Type, id: ArrayId, fuel: nat)
    requires
        typ.kind() == TypeKind::Array(id),
        id.0 < arrays.types.len(),
        fuel > 0,
        ({
            let element = arrays.types[id.0 as int].element;
            settles(arrays, element, resolve_deep(infer, arrays, element, (fuel - 1) as nat))
        }),
    ensures
        settles(arrays, typ, resolve_deep(infer, arrays, typ, fuel)),
{
    broadcast use lemma_keeps_trans;

    let less = (fuel - 1) as nat;
    let array = arrays.types[id.0 as int];
    let (after, element) = resolve_deep(infer, arrays, array.element, less);
    let last = resolve_deep(infer, arrays, typ, fuel).0;
    if element != array.element {
        lemma_pinned(after, id, element);
    } else {
        assert(concrete(after.types, after.types[id.0 as int].element)) by {
            assert(after.types[id.0 as int] == array || concrete(
                after.types,
                after.types[id.0 as int].element,
            ));
        }
        assert forall|depth: nat| #[trigger] settled(after.types, typ, depth) by {
            if depth > 0 {
                assert(settled(after.types, after.types[id.0 as int].element, (depth - 1) as nat));
            }
        }
    }
    assert forall|i: int| 0 <= i < arrays.types.len() implies #[trigger] last.types[i]
        == arrays.types[i] || concrete(last.types, last.types[i].element) by {
        reveal(keeps);
        assert(after.types[i] == arrays.types[i] || concrete(after.types, after.types[i].element));
        if element != array.element && i == id.0 {
            assert(concrete(last.types, element));
        } else {
            assert(last.types[i] == after.types[i]);
        }
    }
}

proof fn lemma_list(
    infer: Inference,
    arrays: Arrays,
    types: Seq<Type>,
    at: nat,
    resolved: Seq<Type>,
    fuel: nat,
)
    requires
        at <= types.len(),
        forall|i: int| 0 <= i < resolved.len() ==> concrete(arrays.types, #[trigger] resolved[i]),
    ensures
        ({
            let (after, list) = resolve_list(infer, arrays, types, at, resolved, fuel);
            &&& keeps(arrays, after)
            &&& forall|i: int| 0 <= i < list.len() ==> concrete(after.types, #[trigger] list[i])
        }),
    decreases types.len() - at,
{
    broadcast use {lemma_keeps_same, lemma_keeps_trans};

    if at < types.len() {
        lemma_deep(infer, arrays, types[at as int], fuel);
        let (after, typ) = resolve_deep(infer, arrays, types[at as int], fuel);
        assert forall|i: int| 0 <= i < resolved.push(typ).len() implies concrete(
            after.types,
            #[trigger] resolved.push(typ)[i],
        ) by {
            reveal(keeps);
            if i < resolved.len() {
                assert(concrete(arrays.types, resolved[i]));
            }
        }
        lemma_list(infer, after, types, at + 1, resolved.push(typ), fuel);
    }
}

/// Settling the types of an expression keeps concrete types concrete, and makes its own so.
pub(crate) proof fn lemma_node<'hir>(infer: Inference, arrays: Arrays, node: Node<'hir>, fuel: nat)
    ensures
        ({
            let (after, settled) = resolve_node(infer, arrays, node, fuel);
            &&& keeps(arrays, after)
            &&& concrete(after.types, settled.typ)
            &&& node.args matches Some(args) ==> {
                let between = resolve_deep(infer, arrays, node.typ, fuel).0;
                let list = resolve_list(infer, between, args@, 0, seq![], fuel).1;
                &&& settled.args == Some(slice_of::<Type>(list))
                &&& forall|i: int| 0 <= i < list.len() ==> concrete(after.types, #[trigger] list[i])
            }
            &&& node.args is None ==> settled.args is None
        }),
{
    broadcast use {lemma_keeps_same, lemma_keeps_trans};

    lemma_deep(infer, arrays, node.typ, fuel);
    let (after, typ) = resolve_deep(infer, arrays, node.typ, fuel);
    if let Some(args) = node.args {
        lemma_list(infer, after, args@, 0, seq![], fuel);
        assert(concrete(resolve_list(infer, after, args@, 0, seq![], fuel).0.types, typ)) by {
            reveal(keeps);
        }
    }
}

proof fn lemma_nodes_keep<'hir>(
    infer: Inference,
    arrays: Arrays,
    nodes: Seq<Node<'hir>>,
    at: nat,
    fuel: nat,
)
    ensures
        keeps(arrays, resolve_nodes(infer, arrays, nodes, at, fuel).0),
    decreases nodes.len() - at,
{
    broadcast use {lemma_keeps_same, lemma_keeps_trans};

    if at < nodes.len() {
        lemma_node(infer, arrays, nodes[at as int], fuel);
        let (after, node) = resolve_node(infer, arrays, nodes[at as int], fuel);
        lemma_nodes_keep(infer, after, nodes.update(at as int, node), at + 1, fuel);
    }
}

proof fn lemma_locals_keep(
    infer: Inference,
    arrays: Arrays,
    locals: Seq<Local>,
    at: nat,
    fuel: nat,
)
    ensures
        keeps(arrays, resolve_locals(infer, arrays, locals, at, fuel).0),
    decreases locals.len() - at,
{
    broadcast use {lemma_keeps_same, lemma_keeps_trans};

    if at < locals.len() {
        let local = locals[at as int];
        lemma_deep(infer, arrays, local.typ, fuel);
        let (after, typ) = resolve_deep(infer, arrays, local.typ, fuel);
        let next = locals.update(at as int, Local { typ, ..local });
        lemma_locals_keep(infer, after, next, at + 1, fuel);
    }
}

impl<'hir> Body<'hir> {
    pub(crate) proof fn lemma_settle_keeps(self)
        ensures
            keeps(self.names.arrays, self.settle_nodes().names.arrays),
            keeps(self.names.arrays, self.settle_locals().names.arrays),
    {
        lemma_nodes_keep(self.infer, self.names.arrays, self.nodes, 0, self.type_depth());
        lemma_locals_keep(self.infer, self.names.arrays, self.locals, 0, self.type_depth());
    }
}

pub(crate) proof fn lemma_kept_node<'hir>(before: Arrays, after: Arrays, node: Node<'hir>)
    requires
        keeps(before, after),
        concrete_node(before.types, node),
    ensures
        concrete_node(after.types, node),
{
    reveal(keeps);
    assert(concrete(after.types, node.typ));
    if let Some(args) = node.args {
        assert forall|i: int| 0 <= i < args@.len() implies concrete(after.types, #[trigger] args@[i]) by {
            assert(concrete(before.types, args@[i]));
        }
    }
}

/// Bodies without inference variables stay so while concrete types stay concrete.
pub proof fn lemma_kept_functions<'hir>(
    before: Arrays,
    after: Arrays,
    functions: Seq<FunctionTree<'hir>>,
)
    requires
        keeps(before, after),
        concrete_functions(before.types, functions),
    ensures
        concrete_functions(after.types, functions),
{
    assert forall|i: int| 0 <= i < functions.len() implies concrete_function(
        after.types,
        #[trigger] functions[i],
    ) by {
        let function = functions[i];
        assert(concrete_function(before.types, function));
        assert forall|j: int| 0 <= j < function.nodes.len() implies concrete_node(
            after.types,
            #[trigger] function.nodes[j],
        ) by {
            lemma_kept_node(before, after, function.nodes[j]);
        }
        assert forall|j: int| 0 <= j < function.locals.len() implies concrete(
            after.types,
            (#[trigger] function.locals[j]).typ,
        ) by {
            reveal(keeps);
            assert(concrete(before.types, function.locals[j].typ));
        }
    }
}

/// Constants without inference variables stay so while names grow.
pub proof fn lemma_kept_constants<'hir>(before: Names<'hir>, after: Names<'hir>)
    requires
        extends(before.ledger(), after.ledger()),
        before.constants_concrete(),
    ensures
        after.constants_concrete(),
{
    reveal(concrete_constants);
    lemma_extends_keeps(before.ledger(), after.ledger());
    assert forall|i: int| 0 <= i < after.constants.len() implies concrete_nodes(
        after.arrays.types,
        (#[trigger] after.constants[i]).typeck.nodes@,
    ) by {
        let nodes = before.constants[i].typeck.nodes@;
        assert(concrete_nodes(before.arrays.types, nodes));
        assert forall|j: int| 0 <= j < nodes.len() implies concrete_node(
            after.arrays.types,
            #[trigger] nodes[j],
        ) by {
            lemma_kept_node(before.arrays, after.arrays, nodes[j]);
        }
    }
}

/// A constant without inference variables can come in.
pub(crate) proof fn lemma_constant_added<'hir>(
    arrays: Seq<ArrayType>,
    constants: Seq<ConstTree<'hir>>,
    constant: ConstTree<'hir>,
)
    requires
        concrete_constants(arrays, constants),
        concrete_nodes(arrays, constant.typeck.nodes@),
    ensures
        concrete_constants(arrays, with_constant(constants, constant)),
{
    reveal(concrete_constants);
    lemma_constant_position(constants, constant.name, 0);
    let after = with_constant(constants, constant);
    assert forall|i: int| 0 <= i < after.len() implies concrete_nodes(
        arrays,
        (#[trigger] after[i]).typeck.nodes@,
    ) by {
        if after[i] != constant {
            assert(after[i] == constants[i]);
        }
    }
}

pub(crate) proof fn lemma_no_constants<'hir>(names: Names<'hir>)
    requires
        names.constants.len() == 0,
    ensures
        names.constants_concrete(),
{
    reveal(concrete_constants);
}

/// Pointing calls at instances touches no type.
pub(crate) proof fn lemma_rewritten_functions<'hir>(
    arrays: Seq<ArrayType>,
    names: Names<'hir>,
    instances: Seq<(Instance<'hir>, FunctionId)>,
    functions: Seq<FunctionTree<'hir>>,
)
    requires
        concrete_functions(arrays, functions),
    ensures
        concrete_functions(arrays, rewrite_all(names, instances, functions)),
{
    let all = rewrite_all(names, instances, functions);
    assert forall|i: int| 0 <= i < all.len() implies concrete_function(
        arrays,
        #[trigger] all[i],
    ) by {
        let function = functions[i];
        assert(concrete_function(arrays, function));
        assert forall|j: int| 0 <= j < all[i].nodes.len() implies concrete_node(
            arrays,
            #[trigger] all[i].nodes[j],
        ) by {
            assert(concrete_node(arrays, function.nodes[j]));
        }
    }
}

} // verus!
