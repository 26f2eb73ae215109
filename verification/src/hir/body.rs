//! The state of lowering one body, and its basic operations.

use crate::ast;
use crate::ast::{GenericBound, Span, Spanned};
use crate::hir::error::{seen, HirError, HirErrorKind};
use crate::hir::infer::{lemma_unify_agrees, InferTable, Inference};
use crate::hir::scope::{GenericEnv, Names, Outcome, Scope};
use crate::hir::symbols::SymbolId;
use crate::hir::tree::{
    const_tree, expr_tree, kind_tree, ConstTree, Constant, ExprId, ExprTree, Expression,
    ExpressionKind, KindTree, Local, LocalId, Node,
};
use crate::hir::type_resolver::{seen_list, ResolveCtx, MAX_DEPTH};
use crate::hir::types::{EnumId, EnumRepr, Type, TypeKind};
use vstd::prelude::*;

verus! {

/// What a name in a body is bound to.
#[derive(Debug, Clone, Copy)]
pub enum Bound<'hir> {
    Local(LocalId),
    Constant(&'hir Constant<'hir>),
}

/// A binding as contracts see it.
pub ghost enum BoundTree<'hir> {
    Local(LocalId),
    Constant(ConstTree<'hir>),
}

/// Lowers one function body or constant initialiser.
pub struct FunctionBuilder<'hir> {
    pub scope: Scope<'hir>,
    pub locals: Vec<Local>,
    /// All bindings in scope, innermost last
    pub bindings: Vec<(SymbolId, Bound<'hir>)>,
    /// Where each open block's bindings begin
    pub marks: Vec<usize>,
    /// What is known of every expression so far
    pub nodes: Vec<Node<'hir>>,
    pub infer: InferTable,
    pub return_type: Type,
    /// The type whose `impl` block the function stands in
    pub impl_type: Option<&'hir str>,
    pub generics: &'hir [GenericBound<'hir>],
    pub is_const: bool,
    /// Whether a constant's initialiser is being lowered inside a body
    pub in_const: bool,
    /// How many loops are open
    pub loops: usize,
    pub self_type: Option<Type>,
    pub env: GenericEnv<'hir>,
}

/// The state of lowering as contracts see it.
pub ghost struct Body<'hir> {
    pub names: Names<'hir>,
    pub locals: Seq<Local>,
    pub bindings: Seq<(SymbolId, BoundTree<'hir>)>,
    pub marks: Seq<usize>,
    pub nodes: Seq<Node<'hir>>,
    pub infer: Inference,
    pub return_type: Type,
    pub impl_type: Option<&'hir str>,
    pub generics: &'hir [GenericBound<'hir>],
    pub is_const: bool,
    pub in_const: bool,
    pub loops: usize,
    pub self_type: Option<Type>,
    pub env: GenericEnv<'hir>,
}

/// A freshly lowered expression with its type.
#[derive(Debug, Clone, Copy)]
pub struct Lowered<'hir> {
    pub expr: &'hir Expression<'hir>,
    pub typ: Type,
    pub span: Span,
}

/// A freshly lowered expression as contracts see it.
pub ghost struct LoweredTree<'hir> {
    pub expr: ExprTree<'hir>,
    pub typ: Type,
    pub span: Span,
}

impl<'hir> View for Lowered<'hir> {
    type V = LoweredTree<'hir>;

    open spec fn view(&self) -> LoweredTree<'hir> {
        LoweredTree { expr: expr_tree(*self.expr), typ: self.typ, span: self.span }
    }
}

/// The outcome of lowering an expression as contracts see it.
pub open spec fn seen_expr<'hir>(result: Result<Lowered<'hir>, HirError<&'hir str>>) -> Outcome<
    LoweredTree<'hir>,
> {
    match result {
        Ok(lowered) => Ok(lowered@),
        Err(error) => Err(error@),
    }
}

pub open spec fn bound_tree<'hir>(bound: Bound<'hir>) -> BoundTree<'hir> {
    match bound {
        Bound::Local(id) => BoundTree::Local(id),
        Bound::Constant(constant) => BoundTree::Constant(const_tree(*constant)),
    }
}

pub open spec fn binding_trees<'hir>(items: Seq<(SymbolId, Bound<'hir>)>) -> Seq<
    (SymbolId, BoundTree<'hir>),
> {
    Seq::new(items.len(), |i: int| (items[i].0, bound_tree(items[i].1)))
}

impl<'hir> View for FunctionBuilder<'hir> {
    type V = Body<'hir>;

    open spec fn view(&self) -> Body<'hir> {
        Body {
            names: self.scope@,
            locals: self.locals@,
            bindings: binding_trees(self.bindings@),
            marks: self.marks@,
            nodes: self.nodes@,
            infer: self.infer@,
            return_type: self.return_type,
            impl_type: self.impl_type,
            generics: self.generics,
            is_const: self.is_const,
            in_const: self.in_const,
            loops: self.loops,
            self_type: self.self_type,
            env: self.env,
        }
    }
}

/// What a name is bound to: the last binding counts.
pub open spec fn last_binding<'hir>(
    bindings: Seq<(SymbolId, BoundTree<'hir>)>,
    symbol: SymbolId,
) -> Option<BoundTree<'hir>>
    decreases bindings.len(),
{
    if bindings.len() == 0 {
        None
    } else if bindings.last().0 == symbol {
        Some(bindings.last().1)
    } else {
        last_binding(bindings.drop_last(), symbol)
    }
}

/// Whether a name is bound at or after position `from`.
pub open spec fn bound_since<'hir>(
    bindings: Seq<(SymbolId, BoundTree<'hir>)>,
    from: int,
    symbol: SymbolId,
) -> bool {
    exists|i: int| 0 <= i < bindings.len() && from <= i && (#[trigger] bindings[i]).0 == symbol
}

pub open spec fn mismatch(expected: Type, found: Type, span: Span) -> HirError<Seq<char>> {
    HirError::new(HirErrorKind::TypeMismatch { expected, found }, span)
}

pub fn mismatch_error<'h>(expected: Type, found: Type, span: Span) -> (error: HirError<&'h str>)
    ensures
        error@ == mismatch(expected, found, span),
{
    HirError::new(HirErrorKind::TypeMismatch { expected, found }, span)
}

/// The node of an expression about which only its type is known.
#[verifier::allow_in_spec]
pub fn typed<'hir>(typ: Type) -> Node<'hir>
    returns
        (Node { typ, def: None, args: None, const_use: None }),
{
    Node { typ, def: None, args: None, const_use: None }
}

/// The enum a type is or refers to.
pub open spec fn enum_type_spec(typ: Type, span: Span) -> Outcome<EnumId> {
    let expected = Type::enumerable(EnumId(0, EnumRepr::I32));
    match typ.strip_reference().kind() {
        TypeKind::Enum(id) => Ok(id),
        _ => Err(mismatch(expected, typ, span)),
    }
}

pub fn enum_type<'h>(typ: Type, span: Span) -> (outcome: Result<EnumId, HirError<&'h str>>)
    ensures
        seen(outcome) == enum_type_spec(typ, span),
{
    match typ.strip_reference().kind() {
        TypeKind::Enum(id) => Ok(id),
        _ => Err(mismatch_error(Type::enumerable(EnumId(0, EnumRepr::I32)), typ, span)),
    }
}

impl<'hir> Body<'hir> {
    pub open spec fn with_names(self, names: Names<'hir>) -> Body<'hir> {
        Body { names, ..self }
    }

    pub open spec fn insert(self, name: Seq<char>) -> (Body<'hir>, SymbolId) {
        let (names, symbol) = self.names.insert(name);
        (self.with_names(names), symbol)
    }

    pub open spec fn soft(self, error: HirError<Seq<char>>) -> (Body<'hir>, Outcome<()>) {
        let (names, outcome) = self.names.soft(error);
        (self.with_names(names), outcome)
    }

    pub open spec fn poison(self, error: HirError<Seq<char>>) -> (Body<'hir>, Outcome<Type>) {
        let (names, outcome) = self.names.poison(error);
        (self.with_names(names), outcome)
    }

    /// A new expression and what is known of it.
    pub open spec fn alloc_node(self, kind: KindTree<'hir>, node: Node<'hir>, span: Span) -> (
        Body<'hir>,
        LoweredTree<'hir>,
    ) {
        (
            Body { nodes: self.nodes.push(node), ..self },
            LoweredTree {
                expr: ExprTree { id: ExprId(self.nodes.len() as u32), kind, span },
                typ: node.typ,
                span,
            },
        )
    }

    /// A new expression of the given type.
    pub open spec fn expr(self, kind: KindTree<'hir>, typ: Type, span: Span) -> (
        Body<'hir>,
        LoweredTree<'hir>,
    ) {
        self.alloc_node(kind, typed(typ), span)
    }

    pub open spec fn push_scope(self) -> Body<'hir> {
        Body { marks: self.marks.push(self.bindings.len() as usize), ..self }
    }

    pub open spec fn pop_scope(self) -> Body<'hir> {
        if self.marks.len() == 0 {
            self
        } else {
            let mark = self.marks.last() as int;
            Body {
                bindings: if mark <= self.bindings.len() {
                    self.bindings.take(mark)
                } else {
                    self.bindings
                },
                marks: self.marks.drop_last(),
                ..self
            }
        }
    }

    /// Where the bindings of the innermost block begin.
    pub open spec fn block_start(self) -> int {
        if self.marks.len() == 0 {
            0
        } else {
            self.marks.last() as int
        }
    }

    /// Whether a name may not be bound in the innermost block any more.
    pub open spec fn is_taken(self, symbol: SymbolId) -> bool {
        bound_since(self.bindings, self.block_start(), symbol)
    }

    /// A new local variable.
    pub open spec fn declare_local(
        self,
        symbol: SymbolId,
        typ: Type,
        mutable: bool,
        decl_span: Span,
    ) -> (Body<'hir>, Outcome<LocalId>) {
        if self.is_taken(symbol) {
            (
                self,
                Err(
                    HirError::new(
                        HirErrorKind::DuplicateBind { name: self.names.name(symbol) },
                        decl_span,
                    ),
                ),
            )
        } else {
            let id = LocalId(self.locals.len() as u32);
            (
                Body {
                    locals: self.locals.push(Local { id, name: symbol, typ, decl_span, mutable }),
                    bindings: self.bindings.push((symbol, BoundTree::Local(id))),
                    ..self
                },
                Ok(id),
            )
        }
    }

    pub open spec fn local(self, id: LocalId) -> Option<Local> {
        if id.0 < self.locals.len() {
            Some(self.locals[id.0 as int])
        } else {
            None
        }
    }

    pub open spec fn local_type(self, id: LocalId) -> Type {
        match self.local(id) {
            Some(local) => local.typ,
            None => Type::new(TypeKind::Error),
        }
    }

    pub open spec fn local_mutable(self, id: LocalId) -> bool {
        match self.local(id) {
            Some(local) => local.mutable,
            None => false,
        }
    }

    pub open spec fn local_name(self, id: LocalId) -> Seq<char> {
        match self.local(id) {
            Some(local) => self.names.name(local.name),
            None => Seq::empty(),
        }
    }

    pub open spec fn constant_named(self, name: Seq<char>) -> Option<ConstTree<'hir>> {
        match self.names.get_id(name) {
            Some(symbol) => self.names.constant(symbol),
            None => None,
        }
    }

    /// The constant a name stands for: one of the type at hand, of the module, or by its full
    /// name.
    pub open spec fn constant(self, name: Seq<char>) -> Option<ConstTree<'hir>> {
        let scoped = match self.impl_type {
            Some(impl_type) => self.constant_named(self.names.scoped_item(impl_type@, name)),
            None => None,
        };
        match scoped {
            Some(constant) => Some(constant),
            None => match self.constant_named(self.names.item(name)) {
                Some(constant) => Some(constant),
                None => self.constant_named(name),
            },
        }
    }

    pub open spec fn const_expr(self, constant: ConstTree<'hir>, span: Span) -> (
        Body<'hir>,
        LoweredTree<'hir>,
    ) {
        self.alloc_node(
            KindTree::Const(Box::new(constant)),
            Node { typ: constant.typ, def: None, args: None, const_use: Some(constant.name) },
            span,
        )
    }

    /// What type annotations in the body are read in.
    pub open spec fn ctx(self) -> ResolveCtx<'hir> {
        ResolveCtx {
            self_type: self.self_type,
            open_self: false,
            env: self.env,
            bounds: Some(self.generics),
            instantiate: true,
        }
    }

    pub open spec fn resolve_type(self, typ: Spanned<ast::Type<'hir>>) -> (
        Body<'hir>,
        Outcome<Type>,
    ) {
        let (names, outcome) = self.names.resolve_type(
            typ.value,
            typ.span,
            self.ctx(),
            MAX_DEPTH as nat,
        );
        (self.with_names(names), outcome)
    }

    pub open spec fn resolve_types(self, types: Seq<Spanned<ast::Type<'hir>>>) -> (
        Body<'hir>,
        Outcome<Seq<Type>>,
    ) {
        let (names, outcome) = self.names.resolve_types(
            types,
            0,
            seq![],
            self.ctx(),
            MAX_DEPTH as nat,
        );
        (self.with_names(names), outcome)
    }

    /// What explicit generic arguments of a call are read in.
    pub open spec fn turbofish_ctx(self) -> ResolveCtx<'hir> {
        match self.self_type {
            Some(typ) => ResolveCtx::root_spec().with_self(typ),
            None => ResolveCtx::root_spec(),
        }
    }

    /// The types of explicit generic arguments of a call.
    pub open spec fn turbofish(self, types: Seq<Spanned<ast::Type<'hir>>>) -> (
        Body<'hir>,
        Outcome<Seq<Type>>,
    ) {
        let (names, outcome) = self.names.resolve_types(
            types,
            0,
            seq![],
            self.turbofish_ctx(),
            MAX_DEPTH as nat,
        );
        (self.with_names(names), outcome)
    }

    /// Requires two types to agree, looking into arrays at most `fuel` deep.
    pub open spec fn agree(self, expected: Type, found: Type, span: Span, fuel: nat) -> (
        Body<'hir>,
        Outcome<()>,
    )
        decreases fuel,
    {
        if expected.is_error() || found.is_error() || expected == found {
            (self, Ok(()))
        } else if expected.is_infer() || found.is_infer() {
            let (infer, unified) = self.infer.unify(expected, found);
            let body = Body { infer, ..self };
            if unified {
                (body, Ok(()))
            } else {
                body.soft(
                    mismatch(
                        infer.resolve_or_default(expected),
                        infer.resolve_or_default(found),
                        span,
                    ),
                )
            }
        } else {
            match self.same_length(expected, found) {
                Some((left, right)) => if fuel > 0 {
                    self.agree(left, right, span, (fuel - 1) as nat)
                } else {
                    self.soft(mismatch(expected, found, span))
                },
                None => self.soft(mismatch(expected, found, span)),
            }
        }
    }

    /// The elements of two arrays of one length.
    pub open spec fn same_length(self, expected: Type, found: Type) -> Option<(Type, Type)> {
        match (expected.kind(), found.kind()) {
            (TypeKind::Array(expected), TypeKind::Array(found)) => match (
                self.names.arrays.find(expected),
                self.names.arrays.find(found),
            ) {
                (Some(left), Some(right)) => if left.len == right.len {
                    Some((left.element, right.element))
                } else {
                    None
                },
                _ => None,
            },
            _ => None,
        }
    }

    /// Requires two types to agree.
    ///
    /// A poisoned type agrees with everything, so errors never cascade.
    pub open spec fn assert_type(self, expected: Type, found: Type, span: Span) -> (
        Body<'hir>,
        Outcome<()>,
    ) {
        self.agree(expected, found, span, self.names.arrays.types.len())
    }

    /// Two types agree: they are the same, one is poisoned or diverges, inference made them the
    /// same, or they are arrays of one length whose elements agree.
    pub open spec fn alike(self, expected: Type, found: Type, depth: nat) -> bool
        decreases depth,
    {
        ||| expected == found
        ||| expected.is_error() || found.is_error()
        ||| expected.diverges() || found.diverges()
        ||| self.infer.resolve_shallow(expected) == self.infer.resolve_shallow(found)
        ||| match (expected.infer_var(), found.infer_var()) {
            (Some(a), Some(b)) => self.infer.root[a as int] == self.infer.root[b as int],
            _ => false,
        }
        ||| depth > 0 && match self.same_length(expected, found) {
            Some((left, right)) => self.alike(left, right, (depth - 1) as nat),
            None => false,
        }
    }

    proof fn lemma_agree(self, expected: Type, found: Type, span: Span, fuel: nat)
        requires
            !self.names.recover,
            self.infer.consistent(),
            self.agree(expected, found, span, fuel).1 is Ok,
        ensures
            self.agree(expected, found, span, fuel).0.alike(expected, found, fuel),
            self.agree(expected, found, span, fuel).0.names == self.names,
        decreases fuel,
    {
        if expected.is_error() || found.is_error() || expected == found {
        } else if expected.is_infer() || found.is_infer() {
            lemma_unify_agrees(self.infer, expected, found);
        } else if let Some((left, right)) = self.same_length(expected, found) {
            if fuel > 0 {
                self.lemma_agree(left, right, span, (fuel - 1) as nat);
            }
        }
    }

    /// Types that were required to agree do, unless errors are worked around.
    pub proof fn lemma_assert_type(self, expected: Type, found: Type, span: Span)
        requires
            !self.names.recover,
            self.infer.consistent(),
            self.assert_type(expected, found, span).1 is Ok,
        ensures
            self.assert_type(expected, found, span).0.alike(
                expected,
                found,
                self.names.arrays.types.len(),
            ),
    {
        self.lemma_agree(expected, found, span, self.names.arrays.types.len());
    }

    /// Requiring types to agree leaves the names as they are, unless errors are worked around.
    pub proof fn lemma_assert_names(self, expected: Type, found: Type, span: Span)
        requires
            !self.names.recover,
            self.infer.consistent(),
            self.assert_type(expected, found, span).1 is Ok,
        ensures
            self.assert_type(expected, found, span).0.names == self.names,
    {
        self.lemma_agree(expected, found, span, self.names.arrays.types.len());
    }

    /// A poisoned type agrees with every other, so that one error does not lead to the next.
    pub proof fn lemma_poison_agrees(self, expected: Type, found: Type, span: Span)
        requires
            expected.is_error() || found.is_error(),
        ensures
            self.assert_type(expected, found, span) == (self, Outcome::<()>::Ok(())),
    {
    }

    pub open spec fn array_element(self, typ: Type) -> Option<Type> {
        match typ.kind() {
            TypeKind::Array(id) => match self.names.arrays.find(id) {
                Some(array) => Some(array.element),
                None => None,
            },
            TypeKind::Slice { mutable, element } => Some(Type::from_target(element)),
            _ => None,
        }
    }

    /// The element type of an array, a slice, or a reference to either.
    pub open spec fn element_type(self, typ: Type) -> Option<Type> {
        self.array_element(typ.strip_reference())
    }

    /// The slice that `&array` becomes where a slice is expected.
    pub open spec fn coerce_array_to_slice(self, operand: Type, hint: Option<Type>) -> (
        Body<'hir>,
        Option<Type>,
    ) {
        match hint {
            None => (self, None),
            Some(slice) => match (slice.kind(), operand.kind()) {
                (TypeKind::Slice { mutable, element }, TypeKind::Array(id)) =>
                    match self.names.arrays.find(id) {
                        None => (self, None),
                        Some(array) => {
                            let (infer, unified) = self.infer.unify(
                                array.element,
                                Type::from_target(element),
                            );
                            (
                                Body { infer, ..self },
                                if unified {
                                    Some(slice)
                                } else {
                                    None
                                },
                            )
                        },
                    },
                _ => (self, None),
            },
        }
    }

    /// The name errors use for the type of a receiver or operand.
    pub open spec fn nominal_text(self, typ: Type) -> Seq<char> {
        match typ.kind() {
            TypeKind::Struct(id) => match self.names.structure(id) {
                Some(definition) => self.names.name(definition.name),
                None => crate::hir::display::type_text(typ),
            },
            TypeKind::Enum(id) => match self.names.enumeration(id) {
                Some(definition) => self.names.name(definition.name),
                None => crate::hir::display::type_text(typ),
            },
            _ => crate::hir::display::type_text(typ),
        }
    }
}

impl<'hir> FunctionBuilder<'hir> {
    /// Whether the inference table is sound.
    pub open spec fn wf(self) -> bool {
        self.infer.wf()
    }

    pub fn insert(&mut self, name: &str) -> (symbol: SymbolId)
        requires
            old(self).wf(),
        ensures
            final(self).wf(),
            (final(self)@, symbol) == old(self)@.insert(name@),
    {
        self.scope.insert(name)
    }

    pub fn soft(&mut self, error: HirError<&'hir str>) -> (outcome: Result<(), HirError<&'hir str>>)
        requires
            old(self).wf(),
        ensures
            final(self).wf(),
            (final(self)@, seen(outcome)) == old(self)@.soft(error@),
    {
        self.scope.soft(error)
    }

    pub fn poison(&mut self, error: HirError<&'hir str>) -> (outcome: Result<
        Type,
        HirError<&'hir str>,
    >)
        requires
            old(self).wf(),
        ensures
            final(self).wf(),
            (final(self)@, seen(outcome)) == old(self)@.poison(error@),
    {
        self.scope.poison(error)
    }

    /// Makes a new expression and records what is known of it.
    pub fn alloc_node(&mut self, kind: ExpressionKind<'hir>, node: Node<'hir>, span: Span) -> (lowered:
        Lowered<'hir>)
        requires
            old(self).wf(),
        ensures
            final(self).wf(),
            (final(self)@, lowered@) == old(self)@.alloc_node(kind_tree(kind), node, span),
            lowered.expr.kind == kind,
    {
        let id = ExprId(#[verifier::truncate] (self.nodes.len() as u32));
        let expr = self.scope.arena.place(Expression { id, kind, span });
        self.nodes.push(node);
        Lowered { expr, typ: node.typ, span }
    }

    /// Makes a new expression of the given type.
    pub fn expr(&mut self, kind: ExpressionKind<'hir>, typ: Type, span: Span) -> (lowered: Lowered<
        'hir,
    >)
        requires
            old(self).wf(),
        ensures
            final(self).wf(),
            (final(self)@, lowered@) == old(self)@.expr(kind_tree(kind), typ, span),
            lowered.expr.kind == kind,
    {
        self.alloc_node(kind, typed(typ), span)
    }

    pub fn push_scope(&mut self)
        requires
            old(self).wf(),
        ensures
            final(self).wf(),
            final(self)@ == old(self)@.push_scope(),
    {
        self.marks.push(self.bindings.len());
    }

    pub fn pop_scope(&mut self)
        requires
            old(self).wf(),
        ensures
            final(self).wf(),
            final(self)@ == old(self)@.pop_scope(),
    {
        if let Some(mark) = self.marks.pop() {
            if mark <= self.bindings.len() {
                self.bindings.truncate(mark);
                assert(binding_trees(self.bindings@) =~= binding_trees(old(self).bindings@).take(
                    mark as int,
                ));
            }
        }
    }

    pub fn is_taken(&self, symbol: SymbolId) -> (taken: bool)
        ensures
            taken == self@.is_taken(symbol),
    {
        let start: usize = if self.marks.len() == 0 {
            0
        } else {
            self.marks[self.marks.len() - 1]
        };
        let ghost trees = self@.bindings;
        let mut i: usize = start;
        while i < self.bindings.len()
            invariant
                start <= i,
                start == self@.block_start(),
                trees == self@.bindings,
                forall|j: int| 0 <= j < trees.len() && start <= j < i ==> (#[trigger] trees[j]).0 != symbol,
            decreases self.bindings@.len() - i,
        {
            if self.bindings[i].0 == symbol {
                assert(trees[i as int].0 == symbol);
                return true;
            }
            i += 1;
        }
        false
    }

    pub fn declare_local(
        &mut self,
        symbol: SymbolId,
        typ: Type,
        mutable: bool,
        decl_span: Span,
    ) -> (outcome: Result<LocalId, HirError<&'hir str>>)
        requires
            old(self).wf(),
        ensures
            final(self).wf(),
            (final(self)@, seen(outcome)) == old(self)@.declare_local(
                symbol,
                typ,
                mutable,
                decl_span,
            ),
    {
        if self.is_taken(symbol) {
            let name = self.scope.arena.place_str(self.scope.symbols.name(symbol));
            return Err(HirError::new(HirErrorKind::DuplicateBind { name }, decl_span));
        }
        let id = LocalId(#[verifier::truncate] (self.locals.len() as u32));
        self.locals.push(Local { id, name: symbol, typ, decl_span, mutable });
        self.bindings.push((symbol, Bound::Local(id)));
        assert(binding_trees(self.bindings@) =~= binding_trees(old(self).bindings@).push(
            (symbol, BoundTree::Local(id)),
        ));
        Ok(id)
    }

    pub fn local(&self, id: LocalId) -> (local: Option<Local>)
        ensures
            local == self@.local(id),
    {
        let index: usize = id.0 as usize;
        if index < self.locals.len() {
            Some(self.locals[index])
        } else {
            None
        }
    }

    pub fn local_type(&self, id: LocalId) -> (typ: Type)
        ensures
            typ == self@.local_type(id),
    {
        match self.local(id) {
            Some(local) => local.typ,
            None => Type::new(TypeKind::Error),
        }
    }

    pub fn local_mutable(&self, id: LocalId) -> (mutable: bool)
        ensures
            mutable == self@.local_mutable(id),
    {
        match self.local(id) {
            Some(local) => local.mutable,
            None => false,
        }
    }

    /// The name of a local, stored in the arena.
    pub fn local_name(&self, id: LocalId) -> (name: &'hir str)
        ensures
            name@ == self@.local_name(id),
    {
        match self.local(id) {
            Some(local) => self.scope.arena.place_str(self.scope.symbols.name(local.name)),
            None => {
                proof {
                    reveal_strlit("");
                    assert(""@ =~= Seq::<char>::empty());
                }
                ""
            },
        }
    }

    /// What a name is bound to in the body.
    pub fn binding(&self, symbol: SymbolId) -> (bound: Option<Bound<'hir>>)
        ensures
            last_binding(self@.bindings, symbol) == (match bound {
                Some(bound) => Some(bound_tree(bound)),
                None => None,
            }),
    {
        let ghost all = binding_trees(self.bindings@);
        let mut i: usize = self.bindings.len();
        assert(all.take(i as int) =~= all);
        while i > 0
            invariant
                i <= self.bindings@.len(),
                all == binding_trees(self.bindings@),
                last_binding(all, symbol) == last_binding(all.take(i as int), symbol),
            decreases i,
        {
            i -= 1;
            assert(all.take(i + 1).drop_last() =~= all.take(i as int));
            if self.bindings[i].0 == symbol {
                return Some(self.bindings[i].1);
            }
        }
        None
    }

    pub fn constant_named(&self, name: &str) -> (constant: Option<&'hir Constant<'hir>>)
        ensures
            self@.constant_named(name@) == (match constant {
                Some(constant) => Some(const_tree(*constant)),
                None => None,
            }),
    {
        match self.scope.symbols.get_id(name) {
            Some(symbol) => self.scope.constant(symbol),
            None => None,
        }
    }

    /// The constant a name stands for.
    pub fn constant(&self, name: &str) -> (constant: Option<&'hir Constant<'hir>>)
        ensures
            self@.constant(name@) == (match constant {
                Some(constant) => Some(const_tree(*constant)),
                None => None,
            }),
    {
        if let Some(impl_type) = self.impl_type {
            let scoped = self.scope.mangler.scoped_item(impl_type, name);
            let found = self.constant_named(scoped.as_str());
            if found.is_some() {
                return found;
            }
        }
        let item = self.scope.mangler.item(name);
        let found = self.constant_named(item.as_str());
        if found.is_some() {
            return found;
        }
        self.constant_named(name)
    }

    pub fn const_expr(&mut self, constant: &'hir Constant<'hir>, span: Span) -> (lowered: Lowered<
        'hir,
    >)
        requires
            old(self).wf(),
        ensures
            final(self).wf(),
            (final(self)@, lowered@) == old(self)@.const_expr(const_tree(*constant), span),
    {
        self.alloc_node(
            ExpressionKind::Const(constant),
            Node { typ: constant.typ, def: None, args: None, const_use: Some(constant.name) },
            span,
        )
    }

    fn ctx(&self) -> (ctx: ResolveCtx<'hir>)
        ensures
            ctx == self@.ctx(),
    {
        ResolveCtx {
            self_type: self.self_type,
            open_self: false,
            env: self.env,
            bounds: Some(self.generics),
            instantiate: true,
        }
    }

    /// The type an annotation in the body stands for.
    pub fn resolve_type(&mut self, typ: &Spanned<ast::Type<'hir>>) -> (outcome: Result<
        Type,
        HirError<&'hir str>,
    >)
        requires
            old(self).wf(),
        ensures
            final(self).wf(),
            (final(self)@, seen(outcome)) == old(self)@.resolve_type(*typ),
    {
        let ctx = self.ctx();
        self.scope.resolve_type(&typ.value, typ.span, ctx, MAX_DEPTH)
    }

    pub fn resolve_types(&mut self, types: &Vec<Spanned<ast::Type<'hir>>>) -> (outcome: Result<
        Vec<Type>,
        HirError<&'hir str>,
    >)
        requires
            old(self).wf(),
        ensures
            final(self).wf(),
            (final(self)@, seen_list(outcome)) == old(self)@.resolve_types(types@),
    {
        let ctx = self.ctx();
        self.scope.resolve_types(types, ctx, MAX_DEPTH)
    }

    /// The types of explicit generic arguments of a call.
    pub fn turbofish(&mut self, types: &Vec<Spanned<ast::Type<'hir>>>) -> (outcome: Result<
        Vec<Type>,
        HirError<&'hir str>,
    >)
        requires
            old(self).wf(),
        ensures
            final(self).wf(),
            (final(self)@, seen_list(outcome)) == old(self)@.turbofish(types@),
    {
        let root = ResolveCtx::root(self.scope.arena);
        let ctx = match self.self_type {
            Some(typ) => root.with_self(typ),
            None => root,
        };
        self.scope.resolve_types(types, ctx, MAX_DEPTH)
    }

    fn same_length(&self, expected: Type, found: Type) -> (elements: Option<(Type, Type)>)
        ensures
            elements == self@.same_length(expected, found),
    {
        match (expected.kind(), found.kind()) {
            (TypeKind::Array(expected), TypeKind::Array(found)) => match (
                self.scope.arrays.find(expected),
                self.scope.arrays.find(found),
            ) {
                (Some(left), Some(right)) => if left.len == right.len {
                    Some((left.element, right.element))
                } else {
                    None
                },
                _ => None,
            },
            _ => None,
        }
    }

    fn agree(&mut self, expected: Type, found: Type, span: Span, fuel: usize) -> (outcome: Result<
        (),
        HirError<&'hir str>,
    >)
        requires
            old(self).wf(),
        ensures
            final(self).wf(),
            (final(self)@, seen(outcome)) == old(self)@.agree(expected, found, span, fuel as nat),
        decreases fuel,
    {
        if expected.is_error() || found.is_error() || expected == found {
            return Ok(());
        }
        if expected.is_infer() || found.is_infer() {
            return match self.infer.unify(expected, found) {
                Ok(()) => Ok(()),
                Err(()) => {
                    let expected = self.infer.resolve_or_default(expected);
                    let found = self.infer.resolve_or_default(found);
                    self.soft(mismatch_error(expected, found, span))
                },
            };
        }
        match self.same_length(expected, found) {
            Some((left, right)) => if fuel > 0 {
                self.agree(left, right, span, fuel - 1)
            } else {
                self.soft(mismatch_error(expected, found, span))
            },
            None => self.soft(mismatch_error(expected, found, span)),
        }
    }

    /// Requires two types to agree.
    pub fn assert_type(&mut self, expected: Type, found: Type, span: Span) -> (outcome: Result<
        (),
        HirError<&'hir str>,
    >)
        requires
            old(self).wf(),
        ensures
            final(self).wf(),
            (final(self)@, seen(outcome)) == old(self)@.assert_type(expected, found, span),
    {
        let fuel: usize = self.scope.arrays.len();
        self.agree(expected, found, span, fuel)
    }

    fn array_element(&self, typ: Type) -> (element: Option<Type>)
        ensures
            element == self@.array_element(typ),
    {
        match typ.kind() {
            TypeKind::Array(id) => match self.scope.arrays.find(id) {
                Some(array) => Some(array.element),
                None => None,
            },
            TypeKind::Slice { element, .. } => Some(Type::from_target(element)),
            _ => None,
        }
    }

    pub fn element_type(&self, typ: Type) -> (element: Option<Type>)
        ensures
            element == self@.element_type(typ),
    {
        self.array_element(typ.strip_reference())
    }

    pub fn coerce_array_to_slice(&mut self, operand: Type, hint: Option<Type>) -> (slice: Option<Type>)
        requires
            old(self).wf(),
        ensures
            final(self).wf(),
            (final(self)@, slice) == old(self)@.coerce_array_to_slice(operand, hint),
    {
        let slice = match hint {
            None => return None,
            Some(slice) => slice,
        };
        match (slice.kind(), operand.kind()) {
            (TypeKind::Slice { element, .. }, TypeKind::Array(id)) =>
                match self.scope.arrays.find(id) {
                    None => None,
                    Some(array) => match self.infer.unify(array.element, Type::from_target(element)) {
                        Ok(()) => Some(slice),
                        Err(()) => None,
                    },
                },
            _ => None,
        }
    }

    /// The name errors use for a type, stored in the arena.
    pub fn nominal_text(&self, typ: Type) -> (text: &'hir str)
        ensures
            text@ == self@.nominal_text(typ),
    {
        match typ.kind() {
            TypeKind::Struct(id) => match self.scope.structure(id) {
                Some(definition) => self.scope.arena.place_str(
                    self.scope.symbols.name(definition.name),
                ),
                None => self.scope.arena.place_str(typ.text().as_str()),
            },
            TypeKind::Enum(id) => match self.scope.enumeration(id) {
                Some(definition) => self.scope.arena.place_str(
                    self.scope.symbols.name(definition.name),
                ),
                None => self.scope.arena.place_str(typ.text().as_str()),
            },
            _ => self.scope.arena.place_str(typ.text().as_str()),
        }
    }
}

} // verus!
