//! Lowering a body only adds: to the names it works on, and to the body itself.

use crate::ast;
use crate::ast::{BinaryOperator, Span, Spanned, UnaryOperator};
use crate::hir::arrays::Arrays;
use crate::hir::body::{enum_type_spec, Body, LoweredTree};
use crate::hir::error::HirError;
use crate::hir::expr::Arguments;
use crate::hir::function::param_position;
use crate::hir::growth::{
    carries, extends, lemma_carries_same, lemma_carries_trans, lemma_extends_same,
    lemma_extends_trans, Catalog, Ledger,
};
use crate::hir::infer::{lemma_unify_monotone, Inference};
use crate::hir::scope::{FunctionSignature, Names};
use crate::hir::stmt::{resolve_deep, resolve_list, resolve_locals, resolve_node, resolve_nodes};
use crate::hir::symbols::SymbolId;
use crate::hir::table::{lookup, member_key};
use crate::hir::tree::{
    ArmTree, BlockTree, ConstTree, ExprTree, FunctionId, FunctionKind, Intrinsic, KindTree, Local,
    Node, Parameter, PatternTree, Res, StatementTree, StructField, SyscallCode, TypeckResults,
};
use crate::hir::types::{EnumId, Type, TypeKind};
use crate::hir::typing::{field_type, operand_hint, place_base_local_spec, variant_position};
use vstd::prelude::*;

verus! {

impl<'hir> Body<'hir> {
    pub open spec fn ledger(self) -> Ledger<'hir> {
        self.names.ledger()
    }

    pub open spec fn catalog(self) -> Catalog<'hir> {
        self.names.catalog()
    }
}

/// What a body is made of so far: its expressions and locals, and the types inferred for them.
pub ghost struct Work<'hir> {
    pub nodes: Seq<Node<'hir>>,
    pub locals: Seq<Local>,
    pub infer: Inference,
}

impl<'hir> Body<'hir> {
    pub open spec fn work(self) -> Work<'hir> {
        Work { nodes: self.nodes, locals: self.locals, infer: self.infer }
    }
}

/// The same local, with its type inferred or not.
pub open spec fn same_local(first: Local, second: Local) -> bool {
    &&& first.id == second.id
    &&& first.name == second.name
    &&& first.decl_span == second.decl_span
    &&& first.mutable == second.mutable
}

/// Variables that are pinned keep their types, and those that stand for one type keep doing so.
pub open spec fn refines(before: Inference, after: Inference) -> bool {
    before.consistent() ==> {
        &&& after.consistent()
        &&& before.len() <= after.len()
        &&& forall|i: int|
            0 <= i < before.len() && before.value[i] is Some ==> #[trigger] after.value[i]
                == before.value[i]
        &&& forall|i: int, j: int|
            0 <= i < before.len() && 0 <= j < before.len() && before.root[i] == before.root[j]
                ==> #[trigger] after.root[i] == #[trigger] after.root[j]
    }
}

/// A body only grew: expressions and locals keep their ids, calls what they resolved to, and
/// inferred types stay what they are.
#[verifier::opaque]
pub open spec fn adds<'hir>(before: Work<'hir>, after: Work<'hir>) -> bool {
    &&& before.nodes.len() <= after.nodes.len()
    &&& forall|i: int|
        0 <= i < before.nodes.len() ==> (#[trigger] after.nodes[i]).def == before.nodes[i].def
            && after.nodes[i].const_use == before.nodes[i].const_use
    &&& before.locals.len() <= after.locals.len()
    &&& forall|i: int|
        0 <= i < before.locals.len() ==> same_local(before.locals[i], #[trigger] after.locals[i])
    &&& refines(before.infer, after.infer)
}

pub(crate) broadcast proof fn lemma_adds_same<'hir>(work: Work<'hir>)
    ensures
        #[trigger] adds(work, work),
{
    reveal(adds);
}

pub(crate) broadcast proof fn lemma_adds_trans<'hir>(a: Work<'hir>, b: Work<'hir>, c: Work<'hir>)
    requires
        #[trigger] adds(a, b),
        #[trigger] adds(b, c),
    ensures
        adds(a, c),
{
    reveal(adds);
    assert forall|i: int| 0 <= i < a.nodes.len() implies (#[trigger] c.nodes[i]).def
        == a.nodes[i].def && c.nodes[i].const_use == a.nodes[i].const_use by {
        assert(b.nodes[i].def == a.nodes[i].def);
    }
    assert forall|i: int| 0 <= i < a.locals.len() implies same_local(
        a.locals[i],
        #[trigger] c.locals[i],
    ) by {
        assert(same_local(a.locals[i], b.locals[i]));
    }
    if a.infer.consistent() {
        assert forall|i: int| 0 <= i < a.infer.len() && a.infer.value[i] is Some implies (
        #[trigger] c.infer.value[i]) == a.infer.value[i] by {
            assert(b.infer.value[i] == a.infer.value[i]);
        }
        assert forall|i: int, j: int|
            0 <= i < a.infer.len() && 0 <= j < a.infer.len() && a.infer.root[i]
                == a.infer.root[j] implies #[trigger] c.infer.root[i] == #[trigger] c.infer.root[
            j] by {
            assert(b.infer.root[i] == b.infer.root[j]);
        }
    }
}

impl<'hir> Body<'hir> {
    pub(crate) broadcast proof fn lemma_unify_adds(self, a: Type, b: Type)
        ensures
            adds(
                self.work(),
                Body { infer: (#[trigger] self.infer.unify(a, b)).0, ..self }.work(),
            ),
    {
        reveal(adds);
        let after = self.infer.unify(a, b).0;
        if self.infer.consistent() {
            if self.infer.len() > 0 {
                lemma_unify_monotone(self.infer, a, b, 0, 0);
            }
            assert forall|i: int, j: int|
                0 <= i < self.infer.len() && 0 <= j < self.infer.len() && self.infer.root[i]
                    == self.infer.root[j] implies #[trigger] after.root[i] == #[trigger] after.root[
                j] by {
                lemma_unify_monotone(self.infer, a, b, i, j);
            }
            assert forall|i: int|
                0 <= i < self.infer.len() && self.infer.value[i] is Some implies (
            #[trigger] after.value[i]) == self.infer.value[i] by {
                lemma_unify_monotone(self.infer, a, b, i, i);
            }
        }
    }

    pub(crate) broadcast proof fn lemma_fresh_adds(self)
        ensures
            adds(self.work(), Body { infer: (#[trigger] self.infer.fresh()).0, ..self }.work()),
    {
        reveal(adds);
        let after = self.infer.fresh().0;
        if self.infer.consistent() {
            assert forall|i: int| 0 <= i < after.root.len() implies ({
                let r = #[trigger] after.root[i];
                0 <= r < after.root.len() && after.root[r] == r && after.value[i] == after.value[r]
            }) by {
                if i < self.infer.root.len() {
                    let r = self.infer.root[i];
                    assert(after.root[r] == self.infer.root[r]);
                }
            }
        }
    }

    pub(crate) broadcast proof fn lemma_alloc_node_grows(
        self,
        kind: KindTree<'hir>,
        node: Node<'hir>,
        span: Span,
    )
        ensures
            extends(self.ledger(), (#[trigger] self.alloc_node(kind, node, span)).0.ledger()),
            carries(self.catalog(), self.alloc_node(kind, node, span).0.catalog()),
            adds(self.work(), self.alloc_node(kind, node, span).0.work()),
    {
        broadcast use {lemma_extends_same, lemma_carries_same};

        reveal(adds);
    }

    pub(crate) broadcast proof fn lemma_declare_local_grows(
        self,
        symbol: SymbolId,
        typ: Type,
        mutable: bool,
        decl_span: Span,
    )
        ensures
            extends(
                self.ledger(),
                (#[trigger] self.declare_local(symbol, typ, mutable, decl_span)).0.ledger(),
            ),
            carries(
                self.catalog(),
                self.declare_local(symbol, typ, mutable, decl_span).0.catalog(),
            ),
            adds(self.work(), self.declare_local(symbol, typ, mutable, decl_span).0.work()),
    {
        broadcast use {lemma_extends_same, lemma_carries_same};

        reveal(adds);
    }
}

/// Arrays keep their ids and lengths.
spec fn same_lengths(before: Arrays, after: Arrays) -> bool {
    &&& after.types.len() == before.types.len()
    &&& forall|i: int|
        0 <= i < before.types.len() ==> (#[trigger] after.types[i]).len == before.types[i].len
}

proof fn lemma_deep_lengths(infer: Inference, arrays: Arrays, typ: Type, fuel: nat)
    ensures
        same_lengths(arrays, resolve_deep(infer, arrays, typ, fuel).0),
    decreases fuel,
{
    if fuel > 0 {
        let less = (fuel - 1) as nat;
        match typ.kind() {
            TypeKind::Array(id) => if let Some(array) = arrays.find(id) {
                lemma_deep_lengths(infer, arrays, array.element, less);
            },
            TypeKind::Slice { element, .. } => {
                lemma_deep_lengths(infer, arrays, Type::from_target(element), less);
            },
            TypeKind::Ref { to, .. } => {
                lemma_deep_lengths(infer, arrays, Type::from_target(to), less);
            },
            _ => {},
        }
    }
}

proof fn lemma_list_lengths(
    infer: Inference,
    arrays: Arrays,
    types: Seq<Type>,
    at: nat,
    resolved: Seq<Type>,
    fuel: nat,
)
    ensures
        same_lengths(arrays, resolve_list(infer, arrays, types, at, resolved, fuel).0),
    decreases types.len() - at,
{
    if at < types.len() {
        lemma_deep_lengths(infer, arrays, types[at as int], fuel);
        let (after, typ) = resolve_deep(infer, arrays, types[at as int], fuel);
        lemma_list_lengths(infer, after, types, at + 1, resolved.push(typ), fuel);
    }
}

proof fn lemma_nodes_lengths<'hir>(
    infer: Inference,
    arrays: Arrays,
    nodes: Seq<Node<'hir>>,
    at: nat,
    fuel: nat,
)
    ensures
        same_lengths(arrays, resolve_nodes(infer, arrays, nodes, at, fuel).0),
        ({
            let after = resolve_nodes(infer, arrays, nodes, at, fuel).1;
            &&& after.len() == nodes.len()
            &&& forall|i: int|
                0 <= i < nodes.len() ==> (#[trigger] after[i]).def == nodes[i].def
                    && after[i].const_use == nodes[i].const_use
        }),
    decreases nodes.len() - at,
{
    if at < nodes.len() {
        let node = nodes[at as int];
        lemma_deep_lengths(infer, arrays, node.typ, fuel);
        if let Some(args) = node.args {
            let between = resolve_deep(infer, arrays, node.typ, fuel).0;
            lemma_list_lengths(infer, between, args@, 0, seq![], fuel);
        }
        let (after, node) = resolve_node(infer, arrays, node, fuel);
        lemma_nodes_lengths(infer, after, nodes.update(at as int, node), at + 1, fuel);
    }
}

proof fn lemma_locals_lengths(
    infer: Inference,
    arrays: Arrays,
    locals: Seq<Local>,
    at: nat,
    fuel: nat,
)
    ensures
        same_lengths(arrays, resolve_locals(infer, arrays, locals, at, fuel).0),
        ({
            let after = resolve_locals(infer, arrays, locals, at, fuel).1;
            &&& after.len() == locals.len()
            &&& forall|i: int|
                0 <= i < locals.len() ==> same_local(locals[i], #[trigger] after[i])
        }),
    decreases locals.len() - at,
{
    if at < locals.len() {
        let local = locals[at as int];
        lemma_deep_lengths(infer, arrays, local.typ, fuel);
        let (after, typ) = resolve_deep(infer, arrays, local.typ, fuel);
        let next = locals.update(at as int, Local { typ, ..local });
        lemma_locals_lengths(infer, after, next, at + 1, fuel);
    }
}

impl<'hir> Body<'hir> {
    pub(crate) broadcast proof fn lemma_settle_nodes_grows(self)
        ensures
            extends(self.ledger(), (#[trigger] self.settle_nodes()).ledger()),
            carries(self.catalog(), self.settle_nodes().catalog()),
            adds(self.work(), self.settle_nodes().work()),
    {
        broadcast use lemma_carries_same;

        reveal(extends);
        reveal(adds);
        self.lemma_settle_keeps();
        lemma_nodes_lengths(self.infer, self.names.arrays, self.nodes, 0, self.type_depth());
    }

    pub(crate) broadcast proof fn lemma_settle_locals_grows(self)
        ensures
            extends(self.ledger(), (#[trigger] self.settle_locals()).ledger()),
            carries(self.catalog(), self.settle_locals().catalog()),
            adds(self.work(), self.settle_locals().work()),
    {
        broadcast use lemma_carries_same;

        reveal(extends);
        reveal(adds);
        self.lemma_settle_keeps();
        lemma_locals_lengths(self.infer, self.names.arrays, self.locals, 0, self.type_depth());
    }
}

impl<'hir> Body<'hir> {
    pub(crate) broadcast proof fn lemma_insert_grows(self, name: Seq<char>)
        ensures
            extends(self.ledger(), (#[trigger] self.insert(name)).0.ledger()),
            carries(self.catalog(), self.insert(name).0.catalog()),
            adds(self.work(), self.insert(name).0.work()),
    {
        broadcast use {
            lemma_extends_same, lemma_extends_trans, lemma_carries_same, lemma_carries_trans,
            lemma_adds_same, lemma_adds_trans, Names::lemma_insert_grows,
        };
    }

    pub(crate) broadcast proof fn lemma_soft_grows(self, error: HirError<Seq<char>>)
        ensures
            extends(self.ledger(), (#[trigger] self.soft(error)).0.ledger()),
            carries(self.catalog(), self.soft(error).0.catalog()),
            adds(self.work(), self.soft(error).0.work()),
    {
        broadcast use {
            lemma_extends_same, lemma_extends_trans, lemma_carries_same, lemma_carries_trans,
            lemma_adds_same, lemma_adds_trans, Names::lemma_soft_grows,
        };
    }

    pub(crate) broadcast proof fn lemma_poison_grows(self, error: HirError<Seq<char>>)
        ensures
            extends(self.ledger(), (#[trigger] self.poison(error)).0.ledger()),
            carries(self.catalog(), self.poison(error).0.catalog()),
            adds(self.work(), self.poison(error).0.work()),
    {
        broadcast use {
            lemma_extends_same, lemma_extends_trans, lemma_carries_same, lemma_carries_trans,
            lemma_adds_same, lemma_adds_trans, Names::lemma_poison_grows,
        };
    }

    pub(crate) broadcast proof fn lemma_expr_grows(
        self,
        kind: KindTree<'hir>,
        typ: Type,
        span: Span,
    )
        ensures
            extends(self.ledger(), (#[trigger] self.expr(kind, typ, span)).0.ledger()),
            carries(self.catalog(), self.expr(kind, typ, span).0.catalog()),
            adds(self.work(), self.expr(kind, typ, span).0.work()),
    {
        broadcast use {
            lemma_extends_same, lemma_extends_trans, lemma_carries_same, lemma_carries_trans,
            lemma_adds_same, lemma_adds_trans, Body::lemma_alloc_node_grows,
        };
    }

    pub(crate) broadcast proof fn lemma_push_scope_grows(self)
        ensures
            extends(self.ledger(), (#[trigger] self.push_scope()).ledger()),
            carries(self.catalog(), self.push_scope().catalog()),
            adds(self.work(), self.push_scope().work()),
    {
        broadcast use {
            lemma_extends_same, lemma_extends_trans, lemma_carries_same, lemma_carries_trans,
            lemma_adds_same, lemma_adds_trans,
        };
    }

    pub(crate) broadcast proof fn lemma_pop_scope_grows(self)
        ensures
            extends(self.ledger(), (#[trigger] self.pop_scope()).ledger()),
            carries(self.catalog(), self.pop_scope().catalog()),
            adds(self.work(), self.pop_scope().work()),
    {
        broadcast use {
            lemma_extends_same, lemma_extends_trans, lemma_carries_same, lemma_carries_trans,
            lemma_adds_same, lemma_adds_trans,
        };
    }

    pub(crate) broadcast proof fn lemma_const_expr_grows(
        self,
        constant: ConstTree<'hir>,
        span: Span,
    )
        ensures
            extends(self.ledger(), (#[trigger] self.const_expr(constant, span)).0.ledger()),
            carries(self.catalog(), self.const_expr(constant, span).0.catalog()),
            adds(self.work(), self.const_expr(constant, span).0.work()),
    {
        broadcast use {
            lemma_extends_same, lemma_extends_trans, lemma_carries_same, lemma_carries_trans,
            lemma_adds_same, lemma_adds_trans, Body::lemma_alloc_node_grows,
        };
    }

    pub(crate) broadcast proof fn lemma_resolve_type_grows(self, typ: Spanned<ast::Type<'hir>>)
        ensures
            extends(self.ledger(), (#[trigger] self.resolve_type(typ)).0.ledger()),
            carries(self.catalog(), self.resolve_type(typ).0.catalog()),
            adds(self.work(), self.resolve_type(typ).0.work()),
    {
        broadcast use {
            lemma_extends_same, lemma_extends_trans, lemma_carries_same, lemma_carries_trans,
            lemma_adds_same, lemma_adds_trans, Names::lemma_resolve_type_grows,
        };
    }

    pub(crate) broadcast proof fn lemma_resolve_types_grows(
        self,
        types: Seq<Spanned<ast::Type<'hir>>>,
    )
        ensures
            extends(self.ledger(), (#[trigger] self.resolve_types(types)).0.ledger()),
            carries(self.catalog(), self.resolve_types(types).0.catalog()),
            adds(self.work(), self.resolve_types(types).0.work()),
    {
        broadcast use {
            lemma_extends_same, lemma_extends_trans, lemma_carries_same, lemma_carries_trans,
            lemma_adds_same, lemma_adds_trans, Names::lemma_resolve_types_grows,
        };
    }

    pub(crate) broadcast proof fn lemma_turbofish_grows(self, types: Seq<Spanned<ast::Type<'hir>>>)
        ensures
            extends(self.ledger(), (#[trigger] self.turbofish(types)).0.ledger()),
            carries(self.catalog(), self.turbofish(types).0.catalog()),
            adds(self.work(), self.turbofish(types).0.work()),
    {
        broadcast use {
            lemma_extends_same, lemma_extends_trans, lemma_carries_same, lemma_carries_trans,
            lemma_adds_same, lemma_adds_trans, Names::lemma_resolve_types_grows,
        };
    }

    pub(crate) broadcast proof fn lemma_agree_grows(
        self,
        expected: Type,
        found: Type,
        span: Span,
        fuel: nat,
    )
        ensures
            extends(self.ledger(), (#[trigger] self.agree(expected, found, span, fuel)).0.ledger()),
            carries(self.catalog(), self.agree(expected, found, span, fuel).0.catalog()),
            adds(self.work(), self.agree(expected, found, span, fuel).0.work()),
        decreases fuel,
    {
        broadcast use {
            lemma_extends_same, lemma_extends_trans, lemma_carries_same, lemma_carries_trans,
            lemma_adds_same, lemma_adds_trans, Body::lemma_unify_adds, Body::lemma_soft_grows,
        };

        if !(expected.is_error() || found.is_error() || expected == found) {
            if !(expected.is_infer() || found.is_infer()) {
                match self.same_length(expected, found) {
                    Some((left, right)) => {
                        if fuel > 0 {
                            self.lemma_agree_grows(left, right, span, (fuel - 1) as nat);
                        }
                    },
                    _ => {},
                }
            }
        }
    }

    pub(crate) broadcast proof fn lemma_assert_type_grows(
        self,
        expected: Type,
        found: Type,
        span: Span,
    )
        ensures
            extends(self.ledger(), (#[trigger] self.assert_type(expected, found, span)).0.ledger()),
            carries(self.catalog(), self.assert_type(expected, found, span).0.catalog()),
            adds(self.work(), self.assert_type(expected, found, span).0.work()),
    {
        broadcast use {
            lemma_extends_same, lemma_extends_trans, lemma_carries_same, lemma_carries_trans,
            lemma_adds_same, lemma_adds_trans, Body::lemma_agree_grows,
        };
    }

    pub(crate) broadcast proof fn lemma_coerce_array_to_slice_grows(
        self,
        operand: Type,
        hint: Option<Type>,
    )
        ensures
            extends(
                self.ledger(),
                (#[trigger] self.coerce_array_to_slice(operand, hint)).0.ledger(),
            ),
            carries(self.catalog(), self.coerce_array_to_slice(operand, hint).0.catalog()),
            adds(self.work(), self.coerce_array_to_slice(operand, hint).0.work()),
    {
        broadcast use {
            lemma_extends_same, lemma_extends_trans, lemma_carries_same, lemma_carries_trans,
            lemma_adds_same, lemma_adds_trans, Body::lemma_unify_adds,
        };
    }

    pub(crate) broadcast proof fn lemma_lower_identifier_grows(self, name: Seq<char>, span: Span)
        ensures
            extends(self.ledger(), (#[trigger] self.lower_identifier(name, span)).0.ledger()),
            carries(self.catalog(), self.lower_identifier(name, span).0.catalog()),
            adds(self.work(), self.lower_identifier(name, span).0.work()),
    {
        broadcast use {
            lemma_extends_same, lemma_extends_trans, lemma_carries_same, lemma_carries_trans,
            lemma_adds_same, lemma_adds_trans, Body::lemma_const_expr_grows, Body::lemma_expr_grows,
        };
    }

    pub(crate) broadcast proof fn lemma_lower_qualified_name_grows(
        self,
        expr: ast::QualifiedName<'hir>,
    )
        ensures
            extends(self.ledger(), (#[trigger] self.lower_qualified_name(expr)).0.ledger()),
            carries(self.catalog(), self.lower_qualified_name(expr).0.catalog()),
            adds(self.work(), self.lower_qualified_name(expr).0.work()),
    {
        broadcast use {
            lemma_extends_same, lemma_extends_trans, lemma_carries_same, lemma_carries_trans,
            lemma_adds_same, lemma_adds_trans, Body::lemma_const_expr_grows, Body::lemma_expr_grows,
            Body::lemma_insert_grows,
        };
    }

    pub(crate) broadcast proof fn lemma_type_for_binary_grows(
        self,
        operator: BinaryOperator,
        left: Type,
        right: Type,
        span: Span,
    )
        ensures
            extends(
                self.ledger(),
                (#[trigger] self.type_for_binary(operator, left, right, span)).0.ledger(),
            ),
            carries(self.catalog(), self.type_for_binary(operator, left, right, span).0.catalog()),
            adds(self.work(), self.type_for_binary(operator, left, right, span).0.work()),
    {
        broadcast use {
            lemma_extends_same, lemma_extends_trans, lemma_carries_same, lemma_carries_trans,
            lemma_adds_same, lemma_adds_trans, Body::lemma_assert_type_grows,
        };
    }

    pub(crate) broadcast proof fn lemma_lookup_field_grows(
        self,
        current: Type,
        name: Seq<char>,
        span: Span,
    )
        ensures
            extends(self.ledger(), (#[trigger] self.lookup_field(current, name, span)).0.ledger()),
            carries(self.catalog(), self.lookup_field(current, name, span).0.catalog()),
            adds(self.work(), self.lookup_field(current, name, span).0.work()),
    {
        broadcast use {
            lemma_extends_same, lemma_extends_trans, lemma_carries_same, lemma_carries_trans,
            lemma_adds_same, lemma_adds_trans, Body::lemma_insert_grows,
        };
    }

    pub(crate) broadcast proof fn lemma_type_for_unary_grows(
        self,
        operator: UnaryOperator,
        operand: LoweredTree<'hir>,
        hint: Option<Type>,
    )
        ensures
            extends(
                self.ledger(),
                (#[trigger] self.type_for_unary(operator, operand, hint)).0.ledger(),
            ),
            carries(self.catalog(), self.type_for_unary(operator, operand, hint).0.catalog()),
            adds(self.work(), self.type_for_unary(operator, operand, hint).0.work()),
    {
        broadcast use {
            lemma_extends_same, lemma_extends_trans, lemma_carries_same, lemma_carries_trans,
            lemma_adds_same, lemma_adds_trans, Body::lemma_coerce_array_to_slice_grows,
        };
    }

    pub(crate) broadcast proof fn lemma_literal_struct_grows(self, expr: ast::StructLiteral<'hir>)
        ensures
            extends(self.ledger(), (#[trigger] self.literal_struct(expr)).0.ledger()),
            carries(self.catalog(), self.literal_struct(expr).0.catalog()),
            adds(self.work(), self.literal_struct(expr).0.work()),
    {
        broadcast use {
            lemma_extends_same, lemma_extends_trans, lemma_carries_same, lemma_carries_trans,
            lemma_adds_same, lemma_adds_trans, Body::lemma_insert_grows,
            Body::lemma_resolve_types_grows, Names::lemma_instantiate_generic_grows,
        };
    }

    pub(crate) broadcast proof fn lemma_resolve_enum_id_grows(
        self,
        expr: ast::QualifiedCall<'hir>,
        symbol: SymbolId,
        hint: Option<Type>,
    )
        ensures
            extends(
                self.ledger(),
                (#[trigger] self.resolve_enum_id(expr, symbol, hint)).0.ledger(),
            ),
            carries(self.catalog(), self.resolve_enum_id(expr, symbol, hint).0.catalog()),
            adds(self.work(), self.resolve_enum_id(expr, symbol, hint).0.work()),
    {
        broadcast use {
            lemma_extends_same, lemma_extends_trans, lemma_carries_same, lemma_carries_trans,
            lemma_adds_same, lemma_adds_trans, Body::lemma_resolve_types_grows,
            Names::lemma_instantiate_generic_grows,
        };
    }

    pub(crate) broadcast proof fn lemma_method_owner_grows(self, receiver: Type, span: Span)
        ensures
            extends(self.ledger(), (#[trigger] self.method_owner(receiver, span)).0.ledger()),
            carries(self.catalog(), self.method_owner(receiver, span).0.catalog()),
            adds(self.work(), self.method_owner(receiver, span).0.work()),
    {
        broadcast use {
            lemma_extends_same, lemma_extends_trans, lemma_carries_same, lemma_carries_trans,
            lemma_adds_same, lemma_adds_trans, Names::lemma_specialize_slice_impls_grows,
        };
    }

    pub(crate) broadcast proof fn lemma_coerce_method_receiver_grows(
        self,
        receiver: LoweredTree<'hir>,
        owner: Type,
    )
        ensures
            extends(
                self.ledger(),
                (#[trigger] self.coerce_method_receiver(receiver, owner)).0.ledger(),
            ),
            carries(self.catalog(), self.coerce_method_receiver(receiver, owner).0.catalog()),
            adds(self.work(), self.coerce_method_receiver(receiver, owner).0.work()),
    {
        broadcast use {
            lemma_extends_same, lemma_extends_trans, lemma_carries_same, lemma_carries_trans,
            lemma_adds_same, lemma_adds_trans, Body::lemma_expr_grows,
        };
    }

    pub(crate) broadcast proof fn lemma_lower_type_intrinsic_grows(
        self,
        expr: ast::TypeIntrinsic<'hir>,
    )
        ensures
            extends(self.ledger(), (#[trigger] self.lower_type_intrinsic(expr)).0.ledger()),
            carries(self.catalog(), self.lower_type_intrinsic(expr).0.catalog()),
            adds(self.work(), self.lower_type_intrinsic(expr).0.work()),
    {
        broadcast use {
            lemma_extends_same, lemma_extends_trans, lemma_carries_same, lemma_carries_trans,
            lemma_adds_same, lemma_adds_trans, Body::lemma_expr_grows,
            Names::lemma_resolve_type_grows,
        };
    }

    pub(crate) broadcast proof fn lemma_call_expr_grows(
        self,
        callee: SymbolId,
        args: Seq<ExprTree<'hir>>,
        typ: Type,
        def: Res,
        generic_args: Option<&'hir [Type]>,
        span: Span,
    )
        ensures
            extends(
                self.ledger(),
                (#[trigger] self.call_expr(callee, args, typ, def, generic_args, span)).0.ledger(),
            ),
            carries(
                self.catalog(),
                self.call_expr(callee, args, typ, def, generic_args, span).0.catalog(),
            ),
            adds(self.work(), self.call_expr(callee, args, typ, def, generic_args, span).0.work()),
    {
        broadcast use {
            lemma_extends_same, lemma_extends_trans, lemma_carries_same, lemma_carries_trans,
            lemma_adds_same, lemma_adds_trans, Body::lemma_call_of_grows,
            Body::lemma_callee_expr_grows,
        };
    }

    pub(crate) broadcast proof fn lemma_callee_expr_grows(self, callee: SymbolId, span: Span)
        ensures
            extends(self.ledger(), (#[trigger] self.callee_expr(callee, span)).0.ledger()),
            carries(self.catalog(), self.callee_expr(callee, span).0.catalog()),
            adds(self.work(), self.callee_expr(callee, span).0.work()),
    {
        broadcast use {
            lemma_extends_same, lemma_extends_trans, lemma_carries_same, lemma_carries_trans,
            lemma_adds_same, lemma_adds_trans, Body::lemma_expr_grows,
        };
    }

    pub(crate) broadcast proof fn lemma_call_of_grows(
        self,
        callee: ExprTree<'hir>,
        args: Seq<ExprTree<'hir>>,
        typ: Type,
        def: Res,
        generic_args: Option<&'hir [Type]>,
        span: Span,
    )
        ensures
            extends(
                self.ledger(),
                (#[trigger] self.call_of(callee, args, typ, def, generic_args, span)).0.ledger(),
            ),
            carries(
                self.catalog(),
                self.call_of(callee, args, typ, def, generic_args, span).0.catalog(),
            ),
            adds(self.work(), self.call_of(callee, args, typ, def, generic_args, span).0.work()),
    {
        broadcast use {
            lemma_extends_same, lemma_extends_trans, lemma_carries_same, lemma_carries_trans,
            lemma_adds_same, lemma_adds_trans, Body::lemma_alloc_node_grows,
        };
    }

    /// Lowering an expression only adds to the namespace and to the body: what was inferred before it
    /// stays.
    pub broadcast proof fn lemma_lower_expr_grows(
        self,
        expr: ast::Expression<'hir>,
        hint: Option<Type>,
    )
        ensures
            extends(self.ledger(), (#[trigger] self.lower_expr(expr, hint)).0.ledger()),
            carries(self.catalog(), self.lower_expr(expr, hint).0.catalog()),
            adds(self.work(), self.lower_expr(expr, hint).0.work()),
        decreases expr, 0nat,
    {
        broadcast use {
            lemma_extends_same, lemma_extends_trans, lemma_carries_same, lemma_carries_trans,
            lemma_adds_same, lemma_adds_trans, Body::lemma_fresh_adds, Body::lemma_expr_grows,
            Body::lemma_insert_grows, Body::lemma_lower_identifier_grows,
            Body::lemma_lower_qualified_name_grows, Body::lemma_lower_type_intrinsic_grows,
        };

        match expr {
            ast::Expression::Cast(expr) => {
                self.lemma_lower_cast_grows(expr);
            },
            ast::Expression::Unary(expr) => {
                self.lemma_lower_unary_grows(expr, hint);
            },
            ast::Expression::Binary(expr) => {
                self.lemma_lower_binary_grows(expr, hint);
            },
            ast::Expression::Assignment(expr) => {
                self.lemma_lower_assignment_grows(expr);
            },
            ast::Expression::Struct(expr) => {
                self.lemma_lower_struct_literal_grows(expr);
            },
            ast::Expression::Field(expr) => {
                self.lemma_lower_field_grows(expr);
            },
            ast::Expression::Array(expr) => {
                self.lemma_lower_array_grows(expr, hint);
            },
            ast::Expression::ArrayRepeat(expr) => {
                self.lemma_lower_array_repeat_grows(expr, hint);
            },
            ast::Expression::Index(expr) => {
                self.lemma_lower_index_grows(expr);
            },
            ast::Expression::Call(expr) => {
                self.lemma_lower_call_grows(expr);
            },
            ast::Expression::QualifiedCall(expr) => {
                self.lemma_lower_qualified_call_grows(expr, hint);
            },
            _ => {},
        }
    }

    pub(crate) broadcast proof fn lemma_lower_cast_grows(self, expr: ast::Cast<'hir>)
        ensures
            extends(self.ledger(), (#[trigger] self.lower_cast(expr)).0.ledger()),
            carries(self.catalog(), self.lower_cast(expr).0.catalog()),
            adds(self.work(), self.lower_cast(expr).0.work()),
        decreases expr, 1nat,
    {
        broadcast use {
            lemma_extends_same, lemma_extends_trans, lemma_carries_same, lemma_carries_trans,
            lemma_adds_same, lemma_adds_trans, Body::lemma_expr_grows,
            Body::lemma_resolve_type_grows,
        };

        match self.resolve_type(expr.target_type) {
            (body, Ok(target)) => {
                body.lemma_lower_expr_grows(*expr.expr, None);
            },
            _ => {},
        }
    }

    pub(crate) broadcast proof fn lemma_lower_unary_grows(
        self,
        expr: ast::Unary<'hir>,
        hint: Option<Type>,
    )
        ensures
            extends(self.ledger(), (#[trigger] self.lower_unary(expr, hint)).0.ledger()),
            carries(self.catalog(), self.lower_unary(expr, hint).0.catalog()),
            adds(self.work(), self.lower_unary(expr, hint).0.work()),
        decreases expr, 1nat,
    {
        broadcast use {
            lemma_extends_same, lemma_extends_trans, lemma_carries_same, lemma_carries_trans,
            lemma_adds_same, lemma_adds_trans, Body::lemma_expr_grows,
            Body::lemma_type_for_unary_grows,
        };

        self.lemma_lower_expr_grows(*expr.expr, operand_hint(expr.operator, hint));
    }

    pub(crate) broadcast proof fn lemma_lower_binary_grows(
        self,
        expr: ast::Binary<'hir>,
        hint: Option<Type>,
    )
        ensures
            extends(self.ledger(), (#[trigger] self.lower_binary(expr, hint)).0.ledger()),
            carries(self.catalog(), self.lower_binary(expr, hint).0.catalog()),
            adds(self.work(), self.lower_binary(expr, hint).0.work()),
        decreases expr, 1nat,
    {
        broadcast use {
            lemma_extends_same, lemma_extends_trans, lemma_carries_same, lemma_carries_trans,
            lemma_adds_same, lemma_adds_trans, Body::lemma_combine_grows,
        };

        self.lemma_lower_expr_grows(*expr.left, hint);
        match self.lower_expr(*expr.left, hint) {
            (body, Ok(left)) => {
                body.lemma_lower_expr_grows(*expr.right, body.right_hint(expr.operator, left.typ));
            },
            _ => {},
        }
    }

    pub(crate) broadcast proof fn lemma_combine_grows(
        self,
        operator: BinaryOperator,
        left: LoweredTree<'hir>,
        right: LoweredTree<'hir>,
        span: Span,
    )
        ensures
            extends(
                self.ledger(),
                (#[trigger] self.combine(operator, left, right, span)).0.ledger(),
            ),
            carries(self.catalog(), self.combine(operator, left, right, span).0.catalog()),
            adds(self.work(), self.combine(operator, left, right, span).0.work()),
    {
        broadcast use {
            lemma_extends_same, lemma_extends_trans, lemma_carries_same, lemma_carries_trans,
            lemma_adds_same, lemma_adds_trans, Body::lemma_alloc_node_grows,
            Body::lemma_combine_plain_grows, Body::lemma_insert_grows,
        };
    }

    pub(crate) broadcast proof fn lemma_combine_plain_grows(
        self,
        operator: BinaryOperator,
        left: LoweredTree<'hir>,
        right: LoweredTree<'hir>,
        span: Span,
    )
        ensures
            extends(
                self.ledger(),
                (#[trigger] self.combine_plain(operator, left, right, span)).0.ledger(),
            ),
            carries(self.catalog(), self.combine_plain(operator, left, right, span).0.catalog()),
            adds(self.work(), self.combine_plain(operator, left, right, span).0.work()),
    {
        broadcast use {
            lemma_extends_same, lemma_extends_trans, lemma_carries_same, lemma_carries_trans,
            lemma_adds_same, lemma_adds_trans, Body::lemma_expr_grows,
            Body::lemma_type_for_binary_grows,
        };
    }

    pub(crate) broadcast proof fn lemma_lower_assignment_grows(self, expr: ast::Assignment<'hir>)
        ensures
            extends(self.ledger(), (#[trigger] self.lower_assignment(expr)).0.ledger()),
            carries(self.catalog(), self.lower_assignment(expr).0.catalog()),
            adds(self.work(), self.lower_assignment(expr).0.work()),
        decreases expr, 1nat,
    {
        broadcast use {
            lemma_extends_same, lemma_extends_trans, lemma_carries_same, lemma_carries_trans,
            lemma_adds_same, lemma_adds_trans, Body::lemma_assert_type_grows,
            Body::lemma_expr_grows,
        };

        self.lemma_lower_expr_grows(*expr.target, None);
        match self.lower_expr(*expr.target, None) {
            (body, Ok(target)) => {
                match body.check_assignable(target, expr.target.span(), expr.span) {
                    Ok(_) => {
                        body.lemma_lower_expr_grows(*expr.value, Some(target.typ));
                    },
                    _ => {},
                }
            },
            _ => {},
        }
    }

    pub(crate) broadcast proof fn lemma_lower_struct_literal_grows(
        self,
        expr: ast::StructLiteral<'hir>,
    )
        ensures
            extends(self.ledger(), (#[trigger] self.lower_struct_literal(expr)).0.ledger()),
            carries(self.catalog(), self.lower_struct_literal(expr).0.catalog()),
            adds(self.work(), self.lower_struct_literal(expr).0.work()),
        decreases expr, 1nat,
    {
        broadcast use {
            lemma_extends_same, lemma_extends_trans, lemma_carries_same, lemma_carries_trans,
            lemma_adds_same, lemma_adds_trans, Body::lemma_expr_grows,
            Body::lemma_literal_struct_grows,
        };

        match self.literal_struct(expr) {
            (body, Ok(id)) => {
                match body.names.structure(id) {
                    Some(definition) => {
                        let struct_name = body.names.name(definition.name);
                        body.lemma_lower_fields_grows(
                            expr.fields@,
                            0,
                            definition.fields@,
                            struct_name,
                            seq![],
                            seq![],
                        );
                    },
                    _ => {},
                }
            },
            _ => {},
        }
    }

    pub(crate) broadcast proof fn lemma_lower_fields_grows(
        self,
        inits: Seq<ast::FieldInit<'hir>>,
        at: nat,
        definition: Seq<StructField>,
        struct_name: Seq<char>,
        given: Seq<SymbolId>,
        lowered: Seq<(SymbolId, ExprTree<'hir>)>,
    )
        ensures
            extends(
                self.ledger(),
                (#[trigger] self.lower_fields(
                    inits,
                    at,
                    definition,
                    struct_name,
                    given,
                    lowered,
                )).0.ledger(),
            ),
            carries(
                self.catalog(),
                self.lower_fields(inits, at, definition, struct_name, given, lowered).0.catalog(),
            ),
            adds(
                self.work(),
                self.lower_fields(inits, at, definition, struct_name, given, lowered).0.work(),
            ),
        decreases inits, inits.len() - at,
    {
        broadcast use {
            lemma_extends_same, lemma_extends_trans, lemma_carries_same, lemma_carries_trans,
            lemma_adds_same, lemma_adds_trans, Body::lemma_insert_grows,
        };

        if at < inits.len() {
            let init = inits[at as int];
            let (body, symbol) = self.insert(init.name@);
            if !given.contains(symbol) {
                match field_type(definition, symbol, 0) {
                    Some(expected) => {
                        body.lemma_lower_checked_grows(init.value, expected);
                        match body.lower_checked(init.value, expected) {
                            (body, Ok(value)) => {
                                body.lemma_lower_fields_grows(
                                    inits,
                                    at + 1,
                                    definition,
                                    struct_name,
                                    given.push(symbol),
                                    lowered.push((symbol, value.expr)),
                                );
                            },
                            _ => {},
                        }
                    },
                    _ => {},
                }
            }
        }
    }

    pub(crate) broadcast proof fn lemma_lower_checked_grows(
        self,
        expr: ast::Expression<'hir>,
        expected: Type,
    )
        ensures
            extends(self.ledger(), (#[trigger] self.lower_checked(expr, expected)).0.ledger()),
            carries(self.catalog(), self.lower_checked(expr, expected).0.catalog()),
            adds(self.work(), self.lower_checked(expr, expected).0.work()),
        decreases expr, 1nat,
    {
        broadcast use {
            lemma_extends_same, lemma_extends_trans, lemma_carries_same, lemma_carries_trans,
            lemma_adds_same, lemma_adds_trans, Body::lemma_assert_type_grows,
        };

        self.lemma_lower_expr_grows(expr, Some(expected));
    }

    pub(crate) broadcast proof fn lemma_lower_field_grows(self, expr: ast::FieldAccess<'hir>)
        ensures
            extends(self.ledger(), (#[trigger] self.lower_field(expr)).0.ledger()),
            carries(self.catalog(), self.lower_field(expr).0.catalog()),
            adds(self.work(), self.lower_field(expr).0.work()),
        decreases expr, 1nat,
    {
        broadcast use {
            lemma_extends_same, lemma_extends_trans, lemma_carries_same, lemma_carries_trans,
            lemma_adds_same, lemma_adds_trans, Body::lemma_expr_grows,
            Body::lemma_lookup_field_grows,
        };

        self.lemma_lower_expr_grows(*expr.expr, None);
    }

    pub(crate) broadcast proof fn lemma_lower_array_grows(
        self,
        expr: ast::ArrayLiteral<'hir>,
        hint: Option<Type>,
    )
        ensures
            extends(self.ledger(), (#[trigger] self.lower_array(expr, hint)).0.ledger()),
            carries(self.catalog(), self.lower_array(expr, hint).0.catalog()),
            adds(self.work(), self.lower_array(expr, hint).0.work()),
        decreases expr, 1nat,
    {
        broadcast use {
            lemma_extends_same, lemma_extends_trans, lemma_carries_same, lemma_carries_trans,
            lemma_adds_same, lemma_adds_trans, Body::lemma_array_expr_grows,
        };

        let element_hint = match hint { Some(typ) => self.element_type(typ), None => None, };
        self.lemma_lower_elements_grows(expr.elements@, 0, None, element_hint, seq![]);
    }

    pub(crate) broadcast proof fn lemma_array_expr_grows(
        self,
        kind: KindTree<'hir>,
        element: Type,
        len: u32,
        span: Span,
    )
        ensures
            extends(
                self.ledger(),
                (#[trigger] self.array_expr(kind, element, len, span)).0.ledger(),
            ),
            carries(self.catalog(), self.array_expr(kind, element, len, span).0.catalog()),
            adds(self.work(), self.array_expr(kind, element, len, span).0.work()),
    {
        broadcast use {
            lemma_extends_same, lemma_extends_trans, lemma_carries_same, lemma_carries_trans,
            lemma_adds_same, lemma_adds_trans, Body::lemma_expr_grows,
            Names::lemma_intern_array_grows,
        };
    }

    pub(crate) broadcast proof fn lemma_lower_elements_grows(
        self,
        elements: Seq<ast::Expression<'hir>>,
        at: nat,
        first: Option<Type>,
        hint: Option<Type>,
        lowered: Seq<ExprTree<'hir>>,
    )
        ensures
            extends(
                self.ledger(),
                (#[trigger] self.lower_elements(elements, at, first, hint, lowered)).0.ledger(),
            ),
            carries(
                self.catalog(),
                self.lower_elements(elements, at, first, hint, lowered).0.catalog(),
            ),
            adds(self.work(), self.lower_elements(elements, at, first, hint, lowered).0.work()),
        decreases elements, elements.len() - at,
    {
        broadcast use {
            lemma_extends_same, lemma_extends_trans, lemma_carries_same, lemma_carries_trans,
            lemma_adds_same, lemma_adds_trans, Body::lemma_assert_type_grows,
        };

        if at < elements.len() {
            let expected = match first { Some(typ) => Some(typ), None => hint, };
            self.lemma_lower_expr_grows(elements[at as int], expected);
            match self.lower_expr(elements[at as int], expected) {
                (body, Ok(value)) => {
                    let element = match first { Some(typ) => typ, None => value.typ, };
                    match body.assert_type(element, value.typ, value.span) {
                        (body, Ok(_)) => {
                            body.lemma_lower_elements_grows(
                                elements,
                                at + 1,
                                Some(element),
                                hint,
                                lowered.push(value.expr),
                            );
                        },
                        _ => {},
                    }
                },
                _ => {},
            }
        }
    }

    pub(crate) broadcast proof fn lemma_lower_array_repeat_grows(
        self,
        expr: ast::ArrayRepeat<'hir>,
        hint: Option<Type>,
    )
        ensures
            extends(self.ledger(), (#[trigger] self.lower_array_repeat(expr, hint)).0.ledger()),
            carries(self.catalog(), self.lower_array_repeat(expr, hint).0.catalog()),
            adds(self.work(), self.lower_array_repeat(expr, hint).0.work()),
        decreases expr, 1nat,
    {
        broadcast use {
            lemma_extends_same, lemma_extends_trans, lemma_carries_same, lemma_carries_trans,
            lemma_adds_same, lemma_adds_trans, Body::lemma_array_expr_grows,
        };

        let element_hint = match hint { Some(typ) => self.element_type(typ), None => None, };
        self.lemma_lower_expr_grows(*expr.value, element_hint);
    }

    pub(crate) broadcast proof fn lemma_lower_index_grows(self, expr: ast::IndexAccess<'hir>)
        ensures
            extends(self.ledger(), (#[trigger] self.lower_index(expr)).0.ledger()),
            carries(self.catalog(), self.lower_index(expr).0.catalog()),
            adds(self.work(), self.lower_index(expr).0.work()),
        decreases expr, 1nat,
    {
        broadcast use {
            lemma_extends_same, lemma_extends_trans, lemma_carries_same, lemma_carries_trans,
            lemma_adds_same, lemma_adds_trans, Body::lemma_index_expr_grows,
        };

        self.lemma_lower_expr_grows(*expr.base, None);
        match self.lower_expr(*expr.base, None) {
            (body, Ok(base)) => {
                match body.element_type(base.typ) {
                    Some(element) => {
                        body.lemma_lower_expr_grows(*expr.index, Some(Type::new(TypeKind::Uptr)));
                    },
                    _ => {},
                }
            },
            _ => {},
        }
    }

    pub(crate) broadcast proof fn lemma_index_expr_grows(
        self,
        base: LoweredTree<'hir>,
        index: LoweredTree<'hir>,
        element: Type,
        span: Span,
    )
        ensures
            extends(
                self.ledger(),
                (#[trigger] self.index_expr(base, index, element, span)).0.ledger(),
            ),
            carries(self.catalog(), self.index_expr(base, index, element, span).0.catalog()),
            adds(self.work(), self.index_expr(base, index, element, span).0.work()),
    {
        broadcast use {
            lemma_extends_same, lemma_extends_trans, lemma_carries_same, lemma_carries_trans,
            lemma_adds_same, lemma_adds_trans, Body::lemma_unify_adds, Body::lemma_expr_grows,
        };
    }

    pub(crate) broadcast proof fn lemma_lower_all_grows(
        self,
        args: Seq<ast::Expression<'hir>>,
        at: nat,
        lowered: Arguments<'hir>,
    )
        ensures
            extends(self.ledger(), (#[trigger] self.lower_all(args, at, lowered)).0.ledger()),
            carries(self.catalog(), self.lower_all(args, at, lowered).0.catalog()),
            adds(self.work(), self.lower_all(args, at, lowered).0.work()),
        decreases args, args.len() - at,
    {
        broadcast use {
            lemma_extends_same, lemma_extends_trans, lemma_carries_same, lemma_carries_trans,
            lemma_adds_same, lemma_adds_trans,
        };

        if at < args.len() {
            self.lemma_lower_expr_grows(args[at as int], None);
            match self.lower_expr(args[at as int], None) {
                (body, Ok(arg)) => {
                    body.lemma_lower_all_grows(
                        args,
                        at + 1,
                        Arguments {
                            exprs: lowered.exprs.push(arg.expr),
                            types: lowered.types.push(arg.typ),
                        },
                    );
                },
                _ => {},
            }
        }
    }

    pub(crate) broadcast proof fn lemma_lower_args_grows(
        self,
        args: Seq<ast::Expression<'hir>>,
        at: nat,
        params: Seq<Type>,
        lowered: Seq<ExprTree<'hir>>,
    )
        ensures
            extends(
                self.ledger(),
                (#[trigger] self.lower_args(args, at, params, lowered)).0.ledger(),
            ),
            carries(self.catalog(), self.lower_args(args, at, params, lowered).0.catalog()),
            adds(self.work(), self.lower_args(args, at, params, lowered).0.work()),
        decreases args, args.len() - at,
    {
        broadcast use {
            lemma_extends_same, lemma_extends_trans, lemma_carries_same, lemma_carries_trans,
            lemma_adds_same, lemma_adds_trans,
        };

        if !(at >= args.len() || at >= params.len()) {
            self.lemma_lower_checked_grows(args[at as int], params[at as int]);
            match self.lower_checked(args[at as int], params[at as int]) {
                (body, Ok(arg)) => {
                    body.lemma_lower_args_grows(args, at + 1, params, lowered.push(arg.expr));
                },
                _ => {},
            }
        }
    }

    pub(crate) broadcast proof fn lemma_lower_call_grows(self, expr: ast::Call<'hir>)
        ensures
            extends(self.ledger(), (#[trigger] self.lower_call(expr)).0.ledger()),
            carries(self.catalog(), self.lower_call(expr).0.catalog()),
            adds(self.work(), self.lower_call(expr).0.work()),
        decreases expr, 3nat,
    {
        broadcast use {
            lemma_extends_same, lemma_extends_trans, lemma_carries_same, lemma_carries_trans,
            lemma_adds_same, lemma_adds_trans,
        };

        match * expr.callee {
            ast::Expression::Field(callee) => {
                self.lemma_lower_method_call_grows(expr, callee);
            },
            ast::Expression::Identifier(name, _) => {
                match self.names.resolve_function_call(None, name@) {
                    Some(id) => {
                        self.lemma_lower_function_call_grows(
                            id,
                            expr.args@,
                            expr.type_args@,
                            expr.span,
                        );
                    },
                    _ => {},
                }
            },
            _ => {},
        }
    }

    pub(crate) broadcast proof fn lemma_lower_method_call_grows(
        self,
        expr: ast::Call<'hir>,
        callee: ast::FieldAccess<'hir>,
    )
        requires
            *expr.callee == ast::Expression::Field(callee),
        ensures
            extends(self.ledger(), (#[trigger] self.lower_method_call(expr, callee)).0.ledger()),
            carries(self.catalog(), self.lower_method_call(expr, callee).0.catalog()),
            adds(self.work(), self.lower_method_call(expr, callee).0.work()),
        decreases expr, 2nat,
    {
        broadcast use {
            lemma_extends_same, lemma_extends_trans, lemma_carries_same, lemma_carries_trans,
            lemma_adds_same, lemma_adds_trans, Body::lemma_coerce_method_receiver_grows,
            Body::lemma_expr_grows, Body::lemma_insert_grows, Body::lemma_method_owner_grows,
        };

        assert(decreases_to !(expr => *expr.callee));
        assert(decreases_to !(*expr.callee => (*expr.callee) -> Field_0));
        assert(decreases_to !(callee => *callee.expr));
        self.lemma_lower_expr_grows(*callee.expr, None);
        match self.lower_expr(*callee.expr, None) {
            (body, Ok(receiver)) => {
                let base_type = receiver.typ.strip_reference();
                let (body, method) = body.insert(callee.field@);
                match body.method_owner(base_type, receiver.span) {
                    (body, Ok(owner)) => {
                        match lookup(body.names.methods, member_key(owner, method)) {
                            Some(function) => {
                                match body.names.signature(function) {
                                    Some(signature) => {
                                        match signature.kind {
                                            _ => {
                                                body.lemma_lower_method_args_grows(
                                                    expr,
                                                    callee.field@,
                                                    receiver,
                                                    method,
                                                    function,
                                                    signature,
                                                );
                                            },
                                            _ => {},
                                        }
                                    },
                                    _ => {},
                                }
                            },
                            _ => {},
                        }
                    },
                    _ => {},
                }
            },
            _ => {},
        }
    }

    pub(crate) broadcast proof fn lemma_lower_method_args_grows(
        self,
        expr: ast::Call<'hir>,
        name: Seq<char>,
        receiver: LoweredTree<'hir>,
        method: SymbolId,
        function: FunctionId,
        signature: FunctionSignature<'hir>,
    )
        ensures
            extends(
                self.ledger(),
                (#[trigger] self.lower_method_args(
                    expr,
                    name,
                    receiver,
                    method,
                    function,
                    signature,
                )).0.ledger(),
            ),
            carries(
                self.catalog(),
                self.lower_method_args(
                    expr,
                    name,
                    receiver,
                    method,
                    function,
                    signature,
                ).0.catalog(),
            ),
            adds(
                self.work(),
                self.lower_method_args(expr, name, receiver, method, function, signature).0.work(),
            ),
        decreases expr, 1nat,
    {
        broadcast use {
            lemma_extends_same, lemma_extends_trans, lemma_carries_same, lemma_carries_trans,
            lemma_adds_same, lemma_adds_trans, Body::lemma_alloc_node_grows,
            Body::lemma_turbofish_grows,
        };

        let base = place_base_local_spec(receiver.expr);
        let writable = match receiver.typ.kind() {
            TypeKind::Ref { mutable: true, ..} => true,
            _ => match base { Some(id) => self.local_mutable(id), None => false, },
        };
        let params = signature.explicit_params_spec();
        if !(signature.receiver_mutable_spec() && !writable) {
            if !(params.len() != expr.args@.len()) {
                self.lemma_lower_args_grows(expr.args@, 0, params, seq![]);
            }
        }
    }

    pub(crate) broadcast proof fn lemma_lower_qualified_call_grows(
        self,
        expr: ast::QualifiedCall<'hir>,
        hint: Option<Type>,
    )
        ensures
            extends(self.ledger(), (#[trigger] self.lower_qualified_call(expr, hint)).0.ledger()),
            carries(self.catalog(), self.lower_qualified_call(expr, hint).0.catalog()),
            adds(self.work(), self.lower_qualified_call(expr, hint).0.work()),
        decreases expr, 3nat,
    {
        broadcast use {
            lemma_extends_same, lemma_extends_trans, lemma_carries_same, lemma_carries_trans,
            lemma_adds_same, lemma_adds_trans,
        };

        self.lemma_lower_variant_grows(expr, hint);
        match self.lower_variant(expr, hint) {
            (body, Ok(None)) => {
                match body.names.resolve_function_call(Some(expr.qualifier@), expr.name@) {
                    Some(id) => {
                        body.lemma_lower_function_call_grows(
                            id,
                            expr.args@,
                            expr.type_args@,
                            expr.span,
                        );
                    },
                    _ => {},
                }
            },
            _ => {},
        }
    }

    pub(crate) broadcast proof fn lemma_lower_variant_grows(
        self,
        expr: ast::QualifiedCall<'hir>,
        hint: Option<Type>,
    )
        ensures
            extends(self.ledger(), (#[trigger] self.lower_variant(expr, hint)).0.ledger()),
            carries(self.catalog(), self.lower_variant(expr, hint).0.catalog()),
            adds(self.work(), self.lower_variant(expr, hint).0.work()),
        decreases expr, 2nat,
    {
        broadcast use {
            lemma_extends_same, lemma_extends_trans, lemma_carries_same, lemma_carries_trans,
            lemma_adds_same, lemma_adds_trans, Body::lemma_call_expr_grows,
            Body::lemma_insert_grows, Body::lemma_resolve_enum_id_grows,
        };

        let (body, owner) = self.insert(expr.qualifier@);
        match body.resolve_enum_id(expr, owner, hint) {
            (body, Ok(Some(id))) => {
                let (body, variant) = body.insert(expr.name@);
                match body.names.enumeration(id) {
                    Some(definition) => {
                        match variant_position(definition.variants@, variant, 0) {
                            Some(index) => {
                                body.lemma_lower_payload_grows(
                                    expr,
                                    definition.variants@[index as int].payload,
                                );
                            },
                            _ => {},
                        }
                    },
                    _ => {},
                }
            },
            _ => {},
        }
    }

    pub(crate) broadcast proof fn lemma_lower_payload_grows(
        self,
        expr: ast::QualifiedCall<'hir>,
        payload: Option<Type>,
    )
        ensures
            extends(self.ledger(), (#[trigger] self.lower_payload(expr, payload)).0.ledger()),
            carries(self.catalog(), self.lower_payload(expr, payload).0.catalog()),
            adds(self.work(), self.lower_payload(expr, payload).0.work()),
        decreases expr, 1nat,
    {
        broadcast use {
            lemma_extends_same, lemma_extends_trans, lemma_carries_same, lemma_carries_trans,
            lemma_adds_same, lemma_adds_trans,
        };

        match payload {
            Some(expected) => {
                if expr.args@.len() > 0 {
                    self.lemma_lower_checked_grows(expr.args@[0], expected);
                }
            },
            _ => {},
        }
    }

    pub(crate) broadcast proof fn lemma_lower_function_call_grows(
        self,
        id: FunctionId,
        args: Seq<ast::Expression<'hir>>,
        type_args: Seq<Spanned<ast::Type<'hir>>>,
        span: Span,
    )
        ensures
            extends(
                self.ledger(),
                (#[trigger] self.lower_function_call(id, args, type_args, span)).0.ledger(),
            ),
            carries(
                self.catalog(),
                self.lower_function_call(id, args, type_args, span).0.catalog(),
            ),
            adds(self.work(), self.lower_function_call(id, args, type_args, span).0.work()),
        decreases args, args.len() + 3,
    {
        broadcast use {
            lemma_extends_same, lemma_extends_trans, lemma_carries_same, lemma_carries_trans,
            lemma_adds_same, lemma_adds_trans,
        };

        match self.names.signature(id) {
            Some(signature) => {
                match lookup(self.names.generic_fns, id.0) {
                    Some(template) => {
                        self.lemma_lower_generic_call_grows(
                            id,
                            signature,
                            *template,
                            args,
                            type_args,
                            span,
                        );
                    },
                    None => {
                        self.lemma_lower_direct_call_grows(id, signature, args, type_args, span);
                    },
                }
            },
            _ => {},
        }
    }

    pub(crate) broadcast proof fn lemma_lower_direct_call_grows(
        self,
        id: FunctionId,
        signature: FunctionSignature<'hir>,
        args: Seq<ast::Expression<'hir>>,
        type_args: Seq<Spanned<ast::Type<'hir>>>,
        span: Span,
    )
        ensures
            extends(
                self.ledger(),
                (#[trigger] self.lower_direct_call(
                    id,
                    signature,
                    args,
                    type_args,
                    span,
                )).0.ledger(),
            ),
            carries(
                self.catalog(),
                self.lower_direct_call(id, signature, args, type_args, span).0.catalog(),
            ),
            adds(
                self.work(),
                self.lower_direct_call(id, signature, args, type_args, span).0.work(),
            ),
        decreases args, args.len() + 2,
    {
        broadcast use {
            lemma_extends_same, lemma_extends_trans, lemma_carries_same, lemma_carries_trans,
            lemma_adds_same, lemma_adds_trans, Body::lemma_call_of_grows,
            Body::lemma_callee_expr_grows, Body::lemma_expr_grows, Body::lemma_turbofish_grows,
        };

        match signature.kind {
            FunctionKind::Intrinsic(Intrinsic::Syscall) => {
                self.lemma_lower_syscall_grows(args, signature.return_type, span);
            },
            FunctionKind::Intrinsic(intrinsic) => {
                self.lemma_lower_all_grows(args, 0, Arguments { exprs: seq![], types: seq![] });
            },
            _ => {
                if !(self.is_const && !signature.is_const) {
                    if !(signature.params@.len() != args.len()) {
                        self.lemma_lower_args_grows(args, 0, signature.params@, seq![]);
                    }
                }
            },
        }
    }

    pub(crate) broadcast proof fn lemma_lower_generic_call_grows(
        self,
        id: FunctionId,
        signature: FunctionSignature<'hir>,
        template: ast::Function<'hir>,
        args: Seq<ast::Expression<'hir>>,
        type_args: Seq<Spanned<ast::Type<'hir>>>,
        span: Span,
    )
        ensures
            extends(
                self.ledger(),
                (#[trigger] self.lower_generic_call(
                    id,
                    signature,
                    template,
                    args,
                    type_args,
                    span,
                )).0.ledger(),
            ),
            carries(
                self.catalog(),
                self.lower_generic_call(id, signature, template, args, type_args, span).0.catalog(),
            ),
            adds(
                self.work(),
                self.lower_generic_call(id, signature, template, args, type_args, span).0.work(),
            ),
        decreases args, args.len() + 2,
    {
        broadcast use {
            lemma_extends_same, lemma_extends_trans, lemma_carries_same, lemma_carries_trans,
            lemma_adds_same, lemma_adds_trans, Body::lemma_call_expr_grows,
            Body::lemma_turbofish_grows,
        };

        if !(signature.params@.len() != args.len()) {
            self.lemma_lower_all_grows(args, 0, Arguments { exprs: seq![], types: seq![] });
        }
    }

    pub(crate) broadcast proof fn lemma_lower_syscall_grows(
        self,
        args: Seq<ast::Expression<'hir>>,
        return_type: Type,
        span: Span,
    )
        ensures
            extends(
                self.ledger(),
                (#[trigger] self.lower_syscall(args, return_type, span)).0.ledger(),
            ),
            carries(self.catalog(), self.lower_syscall(args, return_type, span).0.catalog()),
            adds(self.work(), self.lower_syscall(args, return_type, span).0.work()),
        decreases args, args.len() + 1,
    {
        broadcast use {
            lemma_extends_same, lemma_extends_trans, lemma_carries_same, lemma_carries_trans,
            lemma_adds_same, lemma_adds_trans, Body::lemma_expr_grows,
        };

        if self.names.in_std {
            if !(args.len() == 0) {
                if !(args.len() > 7) {
                    match args[0] {
                        ast::Expression::Identifier(name, code_span) => {
                            match SyscallCode::named(name@) {
                                Some(code) => {
                                    self.lemma_lower_all_grows(
                                        args,
                                        1,
                                        Arguments { exprs: seq![], types: seq![] },
                                    );
                                },
                                _ => {},
                            }
                        },
                        _ => {},
                    }
                }
            }
        }
    }

    pub(crate) broadcast proof fn lemma_resolve_inference_grows(self)
        ensures
            extends(self.ledger(), (#[trigger] self.resolve_inference()).ledger()),
            carries(self.catalog(), self.resolve_inference().catalog()),
            adds(self.work(), self.resolve_inference().work()),
    {
        broadcast use {
            lemma_extends_same, lemma_extends_trans, lemma_carries_same, lemma_carries_trans,
            lemma_adds_same, lemma_adds_trans, Body::lemma_settle_locals_grows,
            Body::lemma_settle_nodes_grows,
        };
    }

    pub(crate) broadcast proof fn lemma_lower_pattern_grows(
        self,
        scrutinee: Type,
        pattern: ast::Pattern<'hir>,
        span: Span,
    )
        ensures
            extends(
                self.ledger(),
                (#[trigger] self.lower_pattern(scrutinee, pattern, span)).0.ledger(),
            ),
            carries(self.catalog(), self.lower_pattern(scrutinee, pattern, span).0.catalog()),
            adds(self.work(), self.lower_pattern(scrutinee, pattern, span).0.work()),
        decreases pattern, 0nat,
    {
        broadcast use {
            lemma_extends_same, lemma_extends_trans, lemma_carries_same, lemma_carries_trans,
            lemma_adds_same, lemma_adds_trans, Body::lemma_check_qualifier_grows,
            Body::lemma_declare_local_grows, Body::lemma_insert_grows,
        };

        match pattern {
            ast::Pattern::Or(alternatives) => {
                self.lemma_lower_patterns_grows(scrutinee, alternatives@, 0, seq![]);
            },
            ast::Pattern::Variant { qualifier, name, sub } => {
                match enum_type_spec(scrutinee, span) {
                    Ok(id) => {
                        match self.check_qualifier(qualifier, id, name@, span) {
                            (body, Ok(_)) => {
                                match body.variant_named(id, name@) {
                                    Some(index) => {
                                        match (sub, body.variant_payload(id, index)) {
                                            (Some(sub), Some(payload)) => {
                                                body.lemma_lower_pattern_grows(
                                                    payload,
                                                    sub.value,
                                                    sub.span,
                                                );
                                            },
                                            _ => {},
                                        }
                                    },
                                    _ => {},
                                }
                            },
                            _ => {},
                        }
                    },
                    _ => {},
                }
            },
            _ => {},
        }
    }

    pub(crate) broadcast proof fn lemma_check_qualifier_grows(
        self,
        qualifier: Option<&'hir str>,
        id: EnumId,
        name: Seq<char>,
        span: Span,
    )
        ensures
            extends(
                self.ledger(),
                (#[trigger] self.check_qualifier(qualifier, id, name, span)).0.ledger(),
            ),
            carries(self.catalog(), self.check_qualifier(qualifier, id, name, span).0.catalog()),
            adds(self.work(), self.check_qualifier(qualifier, id, name, span).0.work()),
    {
        broadcast use {
            lemma_extends_same, lemma_extends_trans, lemma_carries_same, lemma_carries_trans,
            lemma_adds_same, lemma_adds_trans, Body::lemma_insert_grows,
        };
    }

    pub(crate) broadcast proof fn lemma_lower_patterns_grows(
        self,
        scrutinee: Type,
        patterns: Seq<ast::Spanned<ast::Pattern<'hir>>>,
        at: nat,
        lowered: Seq<PatternTree>,
    )
        ensures
            extends(
                self.ledger(),
                (#[trigger] self.lower_patterns(scrutinee, patterns, at, lowered)).0.ledger(),
            ),
            carries(
                self.catalog(),
                self.lower_patterns(scrutinee, patterns, at, lowered).0.catalog(),
            ),
            adds(self.work(), self.lower_patterns(scrutinee, patterns, at, lowered).0.work()),
        decreases patterns, patterns.len() - at,
    {
        broadcast use {
            lemma_extends_same, lemma_extends_trans, lemma_carries_same, lemma_carries_trans,
            lemma_adds_same, lemma_adds_trans,
        };

        if at < patterns.len() {
            self.lemma_lower_pattern_grows(
                scrutinee,
                patterns[at as int].value,
                patterns[at as int].span,
            );
            match self.lower_pattern(
                scrutinee,
                patterns[at as int].value,
                patterns[at as int].span,
            ) {
                (body, Ok(pattern)) => {
                    body.lemma_lower_patterns_grows(
                        scrutinee,
                        patterns,
                        at + 1,
                        lowered.push(pattern),
                    );
                },
                _ => {},
            }
        }
    }

    pub(crate) broadcast proof fn lemma_lower_condition_grows(
        self,
        expr: ast::Expression<'hir>,
        span: Option<Span>,
    )
        ensures
            extends(self.ledger(), (#[trigger] self.lower_condition(expr, span)).0.ledger()),
            carries(self.catalog(), self.lower_condition(expr, span).0.catalog()),
            adds(self.work(), self.lower_condition(expr, span).0.work()),
    {
        broadcast use {
            lemma_extends_same, lemma_extends_trans, lemma_carries_same, lemma_carries_trans,
            lemma_adds_same, lemma_adds_trans, Body::lemma_assert_type_grows,
            Body::lemma_lower_expr_grows,
        };
    }

    pub(crate) broadcast proof fn lemma_lower_arm_grows(
        self,
        arm: ast::Arm<'hir>,
        scrutinee: Type,
        expected: Option<Type>,
    )
        ensures
            extends(
                self.ledger(),
                (#[trigger] self.lower_arm(arm, scrutinee, expected)).0.ledger(),
            ),
            carries(self.catalog(), self.lower_arm(arm, scrutinee, expected).0.catalog()),
            adds(self.work(), self.lower_arm(arm, scrutinee, expected).0.work()),
    {
        broadcast use {
            lemma_extends_same, lemma_extends_trans, lemma_carries_same, lemma_carries_trans,
            lemma_adds_same, lemma_adds_trans, Body::lemma_assert_type_grows,
            Body::lemma_lower_condition_grows, Body::lemma_lower_expr_grows,
            Body::lemma_lower_pattern_grows, Body::lemma_pop_scope_grows,
            Body::lemma_push_scope_grows,
        };
    }

    pub(crate) broadcast proof fn lemma_lower_arms_grows(
        self,
        arms: Seq<ast::Arm<'hir>>,
        at: nat,
        scrutinee: Type,
        expected: Option<Type>,
        lowered: Seq<ArmTree<'hir>>,
    )
        ensures
            extends(
                self.ledger(),
                (#[trigger] self.lower_arms(arms, at, scrutinee, expected, lowered)).0.ledger(),
            ),
            carries(
                self.catalog(),
                self.lower_arms(arms, at, scrutinee, expected, lowered).0.catalog(),
            ),
            adds(self.work(), self.lower_arms(arms, at, scrutinee, expected, lowered).0.work()),
        decreases arms.len() - at,
    {
        broadcast use {
            lemma_extends_same, lemma_extends_trans, lemma_carries_same, lemma_carries_trans,
            lemma_adds_same, lemma_adds_trans, Body::lemma_lower_arm_grows,
        };

        if at < arms.len() {
            match self.lower_arm(arms[at as int], scrutinee, expected) {
                (body, Ok((arm, expected))) => {
                    body.lemma_lower_arms_grows(
                        arms,
                        at + 1,
                        scrutinee,
                        expected,
                        lowered.push(arm),
                    );
                },
                _ => {},
            }
        }
    }

    pub(crate) broadcast proof fn lemma_lower_match_grows(
        self,
        statement: ast::Match<'hir>,
        hint: Option<Type>,
    )
        ensures
            extends(self.ledger(), (#[trigger] self.lower_match(statement, hint)).0.ledger()),
            carries(self.catalog(), self.lower_match(statement, hint).0.catalog()),
            adds(self.work(), self.lower_match(statement, hint).0.work()),
    {
        broadcast use {
            lemma_extends_same, lemma_extends_trans, lemma_carries_same, lemma_carries_trans,
            lemma_adds_same, lemma_adds_trans, Body::lemma_expr_grows, Body::lemma_lower_arms_grows,
            Body::lemma_lower_expr_grows,
        };
    }

    pub(crate) broadcast proof fn lemma_handle_tail_expr_grows(
        self,
        expr: LoweredTree<'hir>,
        is_tail: bool,
    )
        ensures
            extends(self.ledger(), (#[trigger] self.handle_tail_expr(expr, is_tail)).0.ledger()),
            carries(self.catalog(), self.handle_tail_expr(expr, is_tail).0.catalog()),
            adds(self.work(), self.handle_tail_expr(expr, is_tail).0.work()),
    {
        broadcast use {
            lemma_extends_same, lemma_extends_trans, lemma_carries_same, lemma_carries_trans,
            lemma_adds_same, lemma_adds_trans, Body::lemma_assert_type_grows,
        };
    }

    pub(crate) broadcast proof fn lemma_lower_let_grows(self, statement: ast::Let<'hir>)
        ensures
            extends(self.ledger(), (#[trigger] self.lower_let(statement)).0.ledger()),
            carries(self.catalog(), self.lower_let(statement).0.catalog()),
            adds(self.work(), self.lower_let(statement).0.work()),
    {
        broadcast use {
            lemma_extends_same, lemma_extends_trans, lemma_carries_same, lemma_carries_trans,
            lemma_adds_same, lemma_adds_trans, Body::lemma_assert_type_grows,
            Body::lemma_declare_local_grows, Body::lemma_insert_grows, Body::lemma_lower_expr_grows,
            Body::lemma_poison_grows, Body::lemma_resolve_type_grows, Body::lemma_soft_grows,
        };
    }

    pub(crate) broadcast proof fn lemma_lower_body_const_grows(self, constant: ast::Const<'hir>)
        ensures
            extends(self.ledger(), (#[trigger] self.lower_body_const(constant)).0.ledger()),
            carries(self.catalog(), self.lower_body_const(constant).0.catalog()),
            adds(self.work(), self.lower_body_const(constant).0.work()),
    {
        broadcast use {
            lemma_extends_same, lemma_extends_trans, lemma_carries_same, lemma_carries_trans,
            lemma_adds_same, lemma_adds_trans, Body::lemma_const_value_grows,
            Body::lemma_declare_local_grows, Body::lemma_insert_grows, Body::lemma_poison_grows,
            Body::lemma_resolve_type_grows, Body::lemma_soft_grows,
        };
    }

    pub(crate) broadcast proof fn lemma_lower_header_grows(self, header: ast::LoopHeader<'hir>)
        ensures
            extends(self.ledger(), (#[trigger] self.lower_header(header)).0.ledger()),
            carries(self.catalog(), self.lower_header(header).0.catalog()),
            adds(self.work(), self.lower_header(header).0.work()),
    {
        broadcast use {
            lemma_extends_same, lemma_extends_trans, lemma_carries_same, lemma_carries_trans,
            lemma_adds_same, lemma_adds_trans, Body::lemma_declare_local_grows,
            Body::lemma_insert_grows, Body::lemma_lower_checked_grows, Body::lemma_lower_expr_grows,
        };
    }

    pub(crate) broadcast proof fn lemma_lower_control_grows(
        self,
        kind: Seq<char>,
        statement: StatementTree<'hir>,
        span: Span,
    )
        ensures
            extends(
                self.ledger(),
                (#[trigger] self.lower_control(kind, statement, span)).0.ledger(),
            ),
            carries(self.catalog(), self.lower_control(kind, statement, span).0.catalog()),
            adds(self.work(), self.lower_control(kind, statement, span).0.work()),
    {
        broadcast use {
            lemma_extends_same, lemma_extends_trans, lemma_carries_same, lemma_carries_trans,
            lemma_adds_same, lemma_adds_trans,
        };
    }

    pub(crate) broadcast proof fn lemma_lower_statement_grows(
        self,
        statement: ast::Statement<'hir>,
        is_tail: bool,
    )
        ensures
            extends(
                self.ledger(),
                (#[trigger] self.lower_statement(statement, is_tail)).0.ledger(),
            ),
            carries(self.catalog(), self.lower_statement(statement, is_tail).0.catalog()),
            adds(self.work(), self.lower_statement(statement, is_tail).0.work()),
        decreases statement, 2nat,
    {
        broadcast use {
            lemma_extends_same, lemma_extends_trans, lemma_carries_same, lemma_carries_trans,
            lemma_adds_same, lemma_adds_trans, Body::lemma_handle_tail_expr_grows,
            Body::lemma_lower_body_const_grows, Body::lemma_lower_checked_grows,
            Body::lemma_lower_control_grows, Body::lemma_lower_expr_grows,
            Body::lemma_lower_let_grows, Body::lemma_lower_match_grows,
        };

        match statement {
            ast::Statement::If(statement) => {
                self.lemma_lower_if_grows(statement, is_tail);
            },
            ast::Statement::While(statement) => {
                self.lemma_lower_while_grows(statement);
            },
            ast::Statement::Loop(statement) => {
                self.lemma_lower_loop_grows(statement);
            },
            ast::Statement::Block(block) => {
                self.lemma_lower_block_grows(block, is_tail);
            },
            _ => {},
        }
    }

    pub(crate) broadcast proof fn lemma_lower_while_grows(self, statement: ast::While<'hir>)
        ensures
            extends(self.ledger(), (#[trigger] self.lower_while(statement)).0.ledger()),
            carries(self.catalog(), self.lower_while(statement).0.catalog()),
            adds(self.work(), self.lower_while(statement).0.work()),
        decreases statement, 5nat,
    {
        broadcast use {
            lemma_extends_same, lemma_extends_trans, lemma_carries_same, lemma_carries_trans,
            lemma_adds_same, lemma_adds_trans, Body::lemma_lower_condition_grows,
        };

        match self.lower_condition(statement.condition, Some(statement.span)) {
            (body, Ok(condition)) => {
                body.lemma_lower_loop_body_grows(statement.body);
            },
            _ => {},
        }
    }

    pub(crate) broadcast proof fn lemma_lower_loop_grows(self, statement: ast::Loop<'hir>)
        ensures
            extends(self.ledger(), (#[trigger] self.lower_loop(statement)).0.ledger()),
            carries(self.catalog(), self.lower_loop(statement).0.catalog()),
            adds(self.work(), self.lower_loop(statement).0.work()),
        decreases statement, 5nat,
    {
        broadcast use {
            lemma_extends_same, lemma_extends_trans, lemma_carries_same, lemma_carries_trans,
            lemma_adds_same, lemma_adds_trans, Body::lemma_lower_header_grows,
            Body::lemma_pop_scope_grows, Body::lemma_push_scope_grows,
        };

        match self.push_scope().lower_header(statement.header) {
            (body, Ok(kind)) => {
                body.lemma_lower_loop_body_grows(statement.body);
            },
            _ => {},
        }
    }

    pub(crate) broadcast proof fn lemma_lower_loop_body_grows(self, block: ast::Block<'hir>)
        ensures
            extends(self.ledger(), (#[trigger] self.lower_loop_body(block)).0.ledger()),
            carries(self.catalog(), self.lower_loop_body(block).0.catalog()),
            adds(self.work(), self.lower_loop_body(block).0.work()),
        decreases block, 4nat,
    {
        broadcast use {
            lemma_extends_same, lemma_extends_trans, lemma_carries_same, lemma_carries_trans,
            lemma_adds_same, lemma_adds_trans,
        };

        let inside = Body { loops: self.loops.wrapping_add(1), ..self };
        inside.lemma_lower_block_grows(block, false);
    }

    pub(crate) broadcast proof fn lemma_lower_block_grows(
        self,
        block: ast::Block<'hir>,
        is_tail: bool,
    )
        ensures
            extends(self.ledger(), (#[trigger] self.lower_block(block, is_tail)).0.ledger()),
            carries(self.catalog(), self.lower_block(block, is_tail).0.catalog()),
            adds(self.work(), self.lower_block(block, is_tail).0.work()),
        decreases block, 3nat,
    {
        broadcast use {
            lemma_extends_same, lemma_extends_trans, lemma_carries_same, lemma_carries_trans,
            lemma_adds_same, lemma_adds_trans, Body::lemma_pop_scope_grows,
            Body::lemma_push_scope_grows,
        };

        self.push_scope().lemma_lower_statements_grows(
            block.statements@,
            0,
            is_tail,
            seq![],
            false,
        );
    }

    pub(crate) broadcast proof fn lemma_lower_statements_grows(
        self,
        statements: Seq<ast::Statement<'hir>>,
        at: nat,
        is_tail: bool,
        lowered: Seq<StatementTree<'hir>>,
        ends: bool,
    )
        ensures
            extends(
                self.ledger(),
                (#[trigger] self.lower_statements(
                    statements,
                    at,
                    is_tail,
                    lowered,
                    ends,
                )).0.ledger(),
            ),
            carries(
                self.catalog(),
                self.lower_statements(statements, at, is_tail, lowered, ends).0.catalog(),
            ),
            adds(
                self.work(),
                self.lower_statements(statements, at, is_tail, lowered, ends).0.work(),
            ),
        decreases statements, statements.len() - at,
    {
        broadcast use {
            lemma_extends_same, lemma_extends_trans, lemma_carries_same, lemma_carries_trans,
            lemma_adds_same, lemma_adds_trans, Body::lemma_soft_grows,
        };

        if at < statements.len() {
            self.lemma_lower_statement_grows(
                statements[at as int],
                is_tail && at + 1 == statements.len(),
            );
            match self.lower_statement(
                statements[at as int],
                is_tail && at + 1 == statements.len(),
            ) {
                (body, Ok(step)) => {
                    body.lemma_lower_statements_grows(
                        statements,
                        at + 1,
                        is_tail,
                        match step.statement {
                            Some(statement) => lowered.push(statement),
                            None => lowered,
                        },
                        ends || step.ends,
                    );
                },
                (body, Err(error)) => {
                    match body.soft(error) {
                        (body, Ok(_)) => {
                            body.lemma_lower_statements_grows(
                                statements,
                                at + 1,
                                is_tail,
                                lowered,
                                true,
                            );
                        },
                        _ => {},
                    }
                },
            }
        }
    }

    pub(crate) broadcast proof fn lemma_lower_if_grows(
        self,
        statement: ast::If<'hir>,
        is_tail: bool,
    )
        ensures
            extends(self.ledger(), (#[trigger] self.lower_if(statement, is_tail)).0.ledger()),
            carries(self.catalog(), self.lower_if(statement, is_tail).0.catalog()),
            adds(self.work(), self.lower_if(statement, is_tail).0.work()),
        decreases statement, 2nat,
    {
        broadcast use {
            lemma_extends_same, lemma_extends_trans, lemma_carries_same, lemma_carries_trans,
            lemma_adds_same, lemma_adds_trans, Body::lemma_lower_condition_grows,
        };

        match self.lower_condition(statement.condition, None) {
            (body, Ok(condition)) => {
                body.lemma_lower_block_grows(statement.then_branch, is_tail);
                match body.lower_block(statement.then_branch, is_tail) {
                    (body, Ok((then_block, then_ends))) => {
                        match statement.else_branch {
                            Some(branch) => {
                                body.lemma_lower_else_grows(*branch, is_tail);
                            },
                            _ => {},
                        }
                    },
                    _ => {},
                }
            },
            _ => {},
        }
    }

    pub(crate) broadcast proof fn lemma_lower_else_grows(
        self,
        branch: ast::Else<'hir>,
        is_tail: bool,
    )
        ensures
            extends(self.ledger(), (#[trigger] self.lower_else(branch, is_tail)).0.ledger()),
            carries(self.catalog(), self.lower_else(branch, is_tail).0.catalog()),
            adds(self.work(), self.lower_else(branch, is_tail).0.work()),
        decreases branch, 4nat,
    {
        broadcast use {
            lemma_extends_same, lemma_extends_trans, lemma_carries_same, lemma_carries_trans,
            lemma_adds_same, lemma_adds_trans, Body::lemma_assert_type_grows,
            Body::lemma_lower_expr_grows,
        };

        match branch {
            ast::Else::If(statement) => {
                self.lemma_lower_if_grows(statement, is_tail);
            },
            ast::Else::Block(block) => {
                self.lemma_lower_block_grows(block, is_tail);
            },
            _ => {},
        }
    }

    pub(crate) broadcast proof fn lemma_splice_grows(
        self,
        tree: ExprTree<'hir>,
        typeck: TypeckResults<'hir>,
        span: Span,
    )
        ensures
            extends(self.ledger(), (#[trigger] self.splice(tree, typeck, span)).0.ledger()),
            carries(self.catalog(), self.splice(tree, typeck, span).0.catalog()),
            adds(self.work(), self.splice(tree, typeck, span).0.work()),
        decreases tree, 1nat,
    {
        broadcast use {
            lemma_extends_same, lemma_extends_trans, lemma_carries_same, lemma_carries_trans,
            lemma_adds_same, lemma_adds_trans, Body::lemma_alloc_node_grows,
        };

        self.lemma_splice_kind_grows(tree.kind, typeck, span);
    }

    pub(crate) broadcast proof fn lemma_splice_kind_grows(
        self,
        kind: KindTree<'hir>,
        typeck: TypeckResults<'hir>,
        span: Span,
    )
        ensures
            extends(self.ledger(), (#[trigger] self.splice_kind(kind, typeck, span)).0.ledger()),
            carries(self.catalog(), self.splice_kind(kind, typeck, span).0.catalog()),
            adds(self.work(), self.splice_kind(kind, typeck, span).0.work()),
        decreases kind, 0nat,
    {
        broadcast use {
            lemma_extends_same, lemma_extends_trans, lemma_carries_same, lemma_carries_trans,
            lemma_adds_same, lemma_adds_trans,
        };

        match kind {
            KindTree::Unary { operator, expr } => {
                self.lemma_splice_grows(*expr, typeck, span);
            },
            KindTree::Binary { operator, left, right } => {
                self.lemma_splice_grows(*left, typeck, span);
                let (body, _) = self.splice(*left, typeck, span);
                body.lemma_splice_grows(*right, typeck, span);
            },
            KindTree::Field { base, field } => {
                self.lemma_splice_grows(*base, typeck, span);
            },
            KindTree::Assign { target, value } => {
                self.lemma_splice_grows(*target, typeck, span);
                let (body, _) = self.splice(*target, typeck, span);
                body.lemma_splice_grows(*value, typeck, span);
            },
            KindTree::Struct { id, fields } => {
                self.lemma_splice_fields_grows(fields, 0, seq![], typeck, span);
            },
            KindTree::Array { elements } => {
                self.lemma_splice_list_grows(elements, 0, seq![], typeck, span);
            },
            KindTree::ArrayRepeat { value, count } => {
                self.lemma_splice_grows(*value, typeck, span);
            },
            KindTree::Index { base, index } => {
                self.lemma_splice_grows(*base, typeck, span);
                let (body, _) = self.splice(*base, typeck, span);
                body.lemma_splice_grows(*index, typeck, span);
            },
            KindTree::Call { callee, args } => {
                self.lemma_splice_grows(*callee, typeck, span);
                let (body, _) = self.splice(*callee, typeck, span);
                body.lemma_splice_list_grows(args, 0, seq![], typeck, span);
            },
            KindTree::MethodCall { name, receiver, args } => {
                self.lemma_splice_grows(*receiver, typeck, span);
                let (body, _) = self.splice(*receiver, typeck, span);
                body.lemma_splice_list_grows(args, 0, seq![], typeck, span);
            },
            KindTree::Syscall { code, args } => {
                self.lemma_splice_list_grows(args, 0, seq![], typeck, span);
            },
            KindTree::IntrinsicCall { intrinsic, args } => {
                self.lemma_splice_list_grows(args, 0, seq![], typeck, span);
            },
            KindTree::Cast { from, to } => {
                self.lemma_splice_grows(*from, typeck, span);
            },
            KindTree::Match { scrutinee, arms } => {
                self.lemma_splice_grows(*scrutinee, typeck, span);
                let (body, _) = self.splice(*scrutinee, typeck, span);
                body.lemma_splice_arms_grows(arms, 0, seq![], typeck, span);
            },
            _ => {},
        }
    }

    pub(crate) broadcast proof fn lemma_splice_list_grows(
        self,
        items: Seq<ExprTree<'hir>>,
        at: nat,
        done: Seq<ExprTree<'hir>>,
        typeck: TypeckResults<'hir>,
        span: Span,
    )
        ensures
            extends(
                self.ledger(),
                (#[trigger] self.splice_list(items, at, done, typeck, span)).0.ledger(),
            ),
            carries(self.catalog(), self.splice_list(items, at, done, typeck, span).0.catalog()),
            adds(self.work(), self.splice_list(items, at, done, typeck, span).0.work()),
        decreases items, (items.len() - at) as nat,
    {
        broadcast use {
            lemma_extends_same, lemma_extends_trans, lemma_carries_same, lemma_carries_trans,
            lemma_adds_same, lemma_adds_trans,
        };

        if at < items.len() {
            self.lemma_splice_grows(items[at as int], typeck, span);
            let (body, item) = self.splice(items[at as int], typeck, span);
            body.lemma_splice_list_grows(items, at + 1, done.push(item.expr), typeck, span);
        }
    }

    pub(crate) broadcast proof fn lemma_splice_fields_grows(
        self,
        items: Seq<(SymbolId, ExprTree<'hir>)>,
        at: nat,
        done: Seq<(SymbolId, ExprTree<'hir>)>,
        typeck: TypeckResults<'hir>,
        span: Span,
    )
        ensures
            extends(
                self.ledger(),
                (#[trigger] self.splice_fields(items, at, done, typeck, span)).0.ledger(),
            ),
            carries(self.catalog(), self.splice_fields(items, at, done, typeck, span).0.catalog()),
            adds(self.work(), self.splice_fields(items, at, done, typeck, span).0.work()),
        decreases items, (items.len() - at) as nat,
    {
        broadcast use {
            lemma_extends_same, lemma_extends_trans, lemma_carries_same, lemma_carries_trans,
            lemma_adds_same, lemma_adds_trans,
        };

        if at < items.len() {
            self.lemma_splice_grows(items[at as int].1, typeck, span);
            let (body, item) = self.splice(items[at as int].1, typeck, span);
            body.lemma_splice_fields_grows(
                items,
                at + 1,
                done.push((items[at as int].0, item.expr)),
                typeck,
                span,
            );
        }
    }

    pub(crate) broadcast proof fn lemma_splice_arm_grows(
        self,
        arm: ArmTree<'hir>,
        typeck: TypeckResults<'hir>,
        span: Span,
    )
        ensures
            extends(self.ledger(), (#[trigger] self.splice_arm(arm, typeck, span)).0.ledger()),
            carries(self.catalog(), self.splice_arm(arm, typeck, span).0.catalog()),
            adds(self.work(), self.splice_arm(arm, typeck, span).0.work()),
        decreases arm, 2nat,
    {
        broadcast use {
            lemma_extends_same, lemma_extends_trans, lemma_carries_same, lemma_carries_trans,
            lemma_adds_same, lemma_adds_trans,
        };

        match arm.guard {
            Some(guard) => {
                self.lemma_splice_grows(guard, typeck, span);
            },
            _ => {},
        }
        let (body, _) = match arm.guard {
            Some(guard) => {
                let (body, guard) = self.splice(guard, typeck, span);
                (body, Some(guard.expr))
            },
            None => (self, None),
        };
        body.lemma_splice_grows(arm.body, typeck, span);
    }

    pub(crate) broadcast proof fn lemma_splice_arms_grows(
        self,
        items: Seq<ArmTree<'hir>>,
        at: nat,
        done: Seq<ArmTree<'hir>>,
        typeck: TypeckResults<'hir>,
        span: Span,
    )
        ensures
            extends(
                self.ledger(),
                (#[trigger] self.splice_arms(items, at, done, typeck, span)).0.ledger(),
            ),
            carries(self.catalog(), self.splice_arms(items, at, done, typeck, span).0.catalog()),
            adds(self.work(), self.splice_arms(items, at, done, typeck, span).0.work()),
        decreases items, (items.len() - at) as nat,
    {
        broadcast use {
            lemma_extends_same, lemma_extends_trans, lemma_carries_same, lemma_carries_trans,
            lemma_adds_same, lemma_adds_trans,
        };

        if at < items.len() {
            self.lemma_splice_arm_grows(items[at as int], typeck, span);
            let (body, arm) = self.splice_arm(items[at as int], typeck, span);
            body.lemma_splice_arms_grows(items, at + 1, done.push(arm), typeck, span);
        }
    }

    pub(crate) broadcast proof fn lemma_declare_params_grows(
        self,
        params: Seq<ast::Parameter<'hir>>,
        types: Seq<Type>,
        at: nat,
        declared: Seq<Parameter>,
    )
        ensures
            extends(
                self.ledger(),
                (#[trigger] self.declare_params(params, types, at, declared)).0.ledger(),
            ),
            carries(self.catalog(), self.declare_params(params, types, at, declared).0.catalog()),
            adds(self.work(), self.declare_params(params, types, at, declared).0.work()),
        decreases params.len() - at,
    {
        broadcast use {
            lemma_extends_same, lemma_extends_trans, lemma_carries_same, lemma_carries_trans,
            lemma_adds_same, lemma_adds_trans, Body::lemma_declare_local_grows,
            Body::lemma_insert_grows,
        };

        if !(at >= params.len() || at >= types.len()) {
            let param = params[at as int];
            let typ = types[at as int];
            let (body, symbol) = self.insert(param.name@);
            match body.declare_local(symbol, typ, param.mutable, param.span) {
                (body, Ok(id)) => {
                    body.lemma_declare_params_grows(
                        params,
                        types,
                        at + 1,
                        declared.push(Parameter { id, name: symbol, mutable: param.mutable, typ }),
                    );
                },
                _ => {},
            }
        }
    }

    pub(crate) broadcast proof fn lemma_declare_receiver_grows(
        self,
        function: ast::Function<'hir>,
        signature: FunctionSignature<'hir>,
    )
        ensures
            extends(
                self.ledger(),
                (#[trigger] self.declare_receiver(function, signature)).0.ledger(),
            ),
            carries(self.catalog(), self.declare_receiver(function, signature).0.catalog()),
            adds(self.work(), self.declare_receiver(function, signature).0.work()),
    {
        broadcast use {
            lemma_extends_same, lemma_extends_trans, lemma_carries_same, lemma_carries_trans,
            lemma_adds_same, lemma_adds_trans, Body::lemma_declare_local_grows,
            Body::lemma_insert_grows,
        };
    }

    pub(crate) broadcast proof fn lemma_open_names_grows(self, at: nat, symbols: Seq<SymbolId>)
        ensures
            extends(self.ledger(), (#[trigger] self.open_names(at, symbols)).0.ledger()),
            carries(self.catalog(), self.open_names(at, symbols).0.catalog()),
            adds(self.work(), self.open_names(at, symbols).0.work()),
        decreases self.env@.len() - at,
    {
        broadcast use {
            lemma_extends_same, lemma_extends_trans, lemma_carries_same, lemma_carries_trans,
            lemma_adds_same, lemma_adds_trans, Body::lemma_insert_grows,
        };

        if at < self.env@.len() {
            match param_position(self.env@, at as u8, 0) {
                Some(position) => {
                    let (body, symbol) = self.insert(self.env@[position].0@);
                    body.lemma_open_names_grows(at + 1, symbols.push(symbol));
                },
                _ => {},
            }
        }
    }

    pub(crate) broadcast proof fn lemma_declared_fn_names_grows(self)
        ensures
            extends(self.ledger(), (#[trigger] self.declared_fn_names()).0.ledger()),
            carries(self.catalog(), self.declared_fn_names().0.catalog()),
            adds(self.work(), self.declared_fn_names().0.work()),
    {
        broadcast use {
            lemma_extends_same, lemma_extends_trans, lemma_carries_same, lemma_carries_trans,
            lemma_adds_same, lemma_adds_trans, Body::lemma_open_names_grows,
        };
    }

    pub(crate) broadcast proof fn lemma_check_return_grows(
        self,
        function: ast::Function<'hir>,
        signature: FunctionSignature<'hir>,
        ends: bool,
    )
        ensures
            extends(
                self.ledger(),
                (#[trigger] self.check_return(function, signature, ends)).0.ledger(),
            ),
            carries(self.catalog(), self.check_return(function, signature, ends).0.catalog()),
            adds(self.work(), self.check_return(function, signature, ends).0.work()),
    {
        broadcast use {
            lemma_extends_same, lemma_extends_trans, lemma_carries_same, lemma_carries_trans,
            lemma_adds_same, lemma_adds_trans, Body::lemma_soft_grows,
        };
    }

    /// Lowering a function only adds to the namespace and to the body.
    pub broadcast proof fn lemma_lower_function_grows(
        self,
        id: FunctionId,
        function: ast::Function<'hir>,
    )
        ensures
            extends(self.ledger(), (#[trigger] self.lower_function(id, function)).0.ledger()),
            carries(self.catalog(), self.lower_function(id, function).0.catalog()),
            adds(self.work(), self.lower_function(id, function).0.work()),
    {
        broadcast use {
            lemma_extends_same, lemma_extends_trans, lemma_carries_same, lemma_carries_trans,
            lemma_adds_same, lemma_adds_trans, Body::lemma_check_return_grows,
            Body::lemma_declare_params_grows, Body::lemma_declare_receiver_grows,
            Body::lemma_finish_grows, Body::lemma_lower_block_grows,
        };
    }

    pub(crate) broadcast proof fn lemma_finish_grows(
        self,
        id: FunctionId,
        function: ast::Function<'hir>,
        signature: FunctionSignature<'hir>,
        params: Seq<Parameter>,
        block: BlockTree<'hir>,
    )
        ensures
            extends(
                self.ledger(),
                (#[trigger] self.finish(id, function, signature, params, block)).0.ledger(),
            ),
            carries(
                self.catalog(),
                self.finish(id, function, signature, params, block).0.catalog(),
            ),
            adds(self.work(), self.finish(id, function, signature, params, block).0.work()),
    {
        broadcast use {
            lemma_extends_same, lemma_extends_trans, lemma_carries_same, lemma_carries_trans,
            lemma_adds_same, lemma_adds_trans, Body::lemma_declared_fn_names_grows,
            Body::lemma_resolve_inference_grows,
        };
    }

    pub(crate) broadcast proof fn lemma_lower_initialiser_grows(
        self,
        expr: ast::Expression<'hir>,
        typ: Type,
    )
        ensures
            extends(self.ledger(), (#[trigger] self.lower_initialiser(expr, typ)).0.ledger()),
            carries(self.catalog(), self.lower_initialiser(expr, typ).0.catalog()),
            adds(self.work(), self.lower_initialiser(expr, typ).0.work()),
    {
        broadcast use {
            lemma_extends_same, lemma_extends_trans, lemma_carries_same, lemma_carries_trans,
            lemma_adds_same, lemma_adds_trans, Body::lemma_lower_checked_grows,
            Body::lemma_resolve_inference_grows,
        };
    }

    pub(crate) broadcast proof fn lemma_const_value_grows(
        self,
        constant: ast::Const<'hir>,
        symbol: SymbolId,
        typ: Type,
    )
        ensures
            extends(self.ledger(), (#[trigger] self.const_value(constant, symbol, typ)).0.ledger()),
            carries(self.catalog(), self.const_value(constant, symbol, typ).0.catalog()),
            adds(self.work(), self.const_value(constant, symbol, typ).0.work()),
    {
        broadcast use {
            lemma_extends_same, lemma_extends_trans, lemma_carries_same, lemma_carries_trans,
            lemma_adds_same, lemma_adds_trans, Body::lemma_lower_checked_grows,
            Body::lemma_settle_nodes_grows,
        };

        let start = Body {
            nodes: seq![],
            infer: Inference::empty(),
            is_const: true,
            in_const: true,
            ..self
        };
        let (inner, value) = start.lower_checked(constant.value, typ);
        let last = if value is Ok {
            inner.settle_nodes()
        } else {
            inner
        };
        assert(adds(start.work(), last.work()));
        reveal(adds);
    }
}

} // verus!
