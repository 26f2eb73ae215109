//! Lowering of statements, patterns and whole bodies.

use crate::arena::slice_of;
use crate::ast;
use crate::ast::Span;
use crate::hir::arrays::{ArrayTable, Arrays};
use crate::hir::body::{
    binding_trees, enum_type, enum_type_spec, mismatch, mismatch_error, seen_expr, Body, Bound,
    BoundTree, FunctionBuilder, Lowered, LoweredTree,
};
use crate::hir::error::{seen, HirError, HirErrorKind};
use crate::hir::infer::{InferTable, Inference};
use crate::hir::typing::{fail, find_variant, fine, variant_position};
use crate::hir::inference_laws::{
    concrete, concrete_node, keeps, lemma_deep, lemma_keeps_same, lemma_keeps_trans, lemma_kept_node,
    lemma_node,
};
use crate::hir::scope::{Names, Outcome};
use crate::hir::symbols::{join, qualified, SymbolId};
use crate::hir::table::{get, lookup};
use crate::hir::tree::{
    arm_tree, arm_trees, block_tree, const_tree, loop_tree, pattern_tree, pattern_trees,
    statement_tree, statement_trees, Arm, ArmTree, Block, BlockTree, ConstTree, Constant,
    ExpressionKind, KindTree, Literal, Local, LoopKind, LoopTree, Node, Pattern, PatternKind,
    PatternKindTree, PatternTree, Statement, StatementTree, TypeckResults,
};
use crate::hir::types::{EnumId, RefTarget, Type, TypeKind};
use vstd::prelude::*;

verus! {

broadcast use vstd::std_specs::hash::group_hash_axioms;

/// A lowered statement, if it leaves one, and whether control never gets past it.
pub ghost struct Step<'hir> {
    pub statement: Option<StatementTree<'hir>>,
    pub ends: bool,
}

/// The value of a literal pattern.
#[verifier::allow_in_spec]
pub fn pattern_literal(literal: ast::PatternLit) -> Literal
    returns
        (match literal {
            ast::PatternLit::Int(value) => Literal::Int(value),
            ast::PatternLit::Float(bits) => Literal::Float(bits),
            ast::PatternLit::Bool(value) => Literal::Bool(value),
            ast::PatternLit::Char(value) => Literal::Char(value),
        }),
{
    match literal {
        ast::PatternLit::Int(value) => Literal::Int(value),
        ast::PatternLit::Float(bits) => Literal::Float(bits),
        ast::PatternLit::Bool(value) => Literal::Bool(value),
        ast::PatternLit::Char(value) => Literal::Char(value),
    }
}

/// The type with every inference variable in it settled, at most `fuel` levels deep.
///
/// Arrays whose element was inferred are pinned in place. An array without a type, and what lies
/// deeper than a table of arrays reaches that does not run in a circle, is an error.
pub open spec fn resolve_deep(infer: Inference, arrays: Arrays, typ: Type, fuel: nat) -> (Arrays, Type)
    decreases fuel,
{
    if fuel == 0 && (typ.kind() is Array || typ.kind() is Slice || typ.kind() is Ref) {
        (arrays, Type::new(TypeKind::Error))
    } else {
        match typ.kind() {
            TypeKind::Array(id) => match arrays.find(id) {
                None => (arrays, Type::new(TypeKind::Error)),
                Some(array) => {
                    let (after, element) = resolve_deep(
                        infer,
                        arrays,
                        array.element,
                        (fuel - 1) as nat,
                    );
                    (
                        if element != array.element {
                            after.resolve(id, element)
                        } else {
                            after
                        },
                        typ,
                    )
                },
            },
            TypeKind::Slice { mutable, element } => {
                let (after, inner) = resolve_deep(
                    infer,
                    arrays,
                    Type::from_target(element),
                    (fuel - 1) as nat,
                );
                (
                    after,
                    match RefTarget::from_type(inner) {
                        Some(target) => Type::slice(target, mutable),
                        None => typ,
                    },
                )
            },
            TypeKind::Ref { mutable, to } => {
                let (after, inner) = resolve_deep(
                    infer,
                    arrays,
                    Type::from_target(to),
                    (fuel - 1) as nat,
                );
                (
                    after,
                    match RefTarget::from_type(inner) {
                        Some(target) => Type::refer(target, mutable),
                        None => typ,
                    },
                )
            },
            _ => (arrays, infer.resolve_or_default(typ)),
        }
    }
}

/// A list of types with every inference variable settled, from position `at` on.
pub open spec fn resolve_list(
    infer: Inference,
    arrays: Arrays,
    types: Seq<Type>,
    at: nat,
    resolved: Seq<Type>,
    fuel: nat,
) -> (Arrays, Seq<Type>)
    decreases types.len() - at,
{
    if at >= types.len() {
        (arrays, resolved)
    } else {
        let (arrays, typ) = resolve_deep(infer, arrays, types[at as int], fuel);
        resolve_list(infer, arrays, types, at + 1, resolved.push(typ), fuel)
    }
}

/// What is known of one expression with every inference variable settled.
pub open spec fn resolve_node<'hir>(infer: Inference, arrays: Arrays, node: Node<'hir>, fuel: nat) -> (
    Arrays,
    Node<'hir>,
) {
    let (arrays, typ) = resolve_deep(infer, arrays, node.typ, fuel);
    match node.args {
        None => (arrays, Node { typ, ..node }),
        Some(args) => {
            let (arrays, args) = resolve_list(infer, arrays, args@, 0, seq![], fuel);
            (arrays, Node { typ, args: Some(slice_of(args)), ..node })
        },
    }
}

/// The nodes of a body with every inference variable settled, from position `at` on.
pub open spec fn resolve_nodes<'hir>(
    infer: Inference,
    arrays: Arrays,
    nodes: Seq<Node<'hir>>,
    at: nat,
    fuel: nat,
) -> (Arrays, Seq<Node<'hir>>)
    decreases nodes.len() - at,
{
    if at >= nodes.len() {
        (arrays, nodes)
    } else {
        let (arrays, node) = resolve_node(infer, arrays, nodes[at as int], fuel);
        resolve_nodes(infer, arrays, nodes.update(at as int, node), at + 1, fuel)
    }
}

/// The locals of a body with every inference variable settled, from position `at` on.
pub open spec fn resolve_locals(
    infer: Inference,
    arrays: Arrays,
    locals: Seq<Local>,
    at: nat,
    fuel: nat,
) -> (Arrays, Seq<Local>)
    decreases locals.len() - at,
{
    if at >= locals.len() {
        (arrays, locals)
    } else {
        let local = locals[at as int];
        let (arrays, typ) = resolve_deep(infer, arrays, local.typ, fuel);
        resolve_locals(
            infer,
            arrays,
            locals.update(at as int, Local { typ, ..local }),
            at + 1,
            fuel,
        )
    }
}

impl<'hir> Body<'hir> {
    /// How deep types can be nested: an array holds only earlier arrays, each directly or through
    /// one reference.
    pub open spec fn type_depth(self) -> nat {
        2 * self.names.arrays.types.len() + 2
    }

    /// The body with the inference variables of its expressions settled.
    pub open spec fn settle_nodes(self) -> Body<'hir> {
        let (arrays, nodes) = resolve_nodes(
            self.infer,
            self.names.arrays,
            self.nodes,
            0,
            self.type_depth(),
        );
        Body { nodes, names: Names { arrays, ..self.names }, ..self }
    }

    /// The body with the inference variables of its locals settled.
    pub open spec fn settle_locals(self) -> Body<'hir> {
        let (arrays, locals) = resolve_locals(
            self.infer,
            self.names.arrays,
            self.locals,
            0,
            self.type_depth(),
        );
        Body { locals, names: Names { arrays, ..self.names }, ..self }
    }

    /// The body with every inference variable settled.
    pub open spec fn resolve_inference(self) -> Body<'hir> {
        self.settle_nodes().settle_locals()
    }

    /// The variant of an enum with the given name.
    pub open spec fn variant_named(self, id: EnumId, name: Seq<char>) -> Option<usize> {
        match (self.names.enumeration(id), self.names.get_id(name)) {
            (Some(definition), Some(symbol)) => variant_position(definition.variants@, symbol, 0),
            _ => None,
        }
    }

    pub open spec fn variant_payload(self, id: EnumId, index: usize) -> Option<Type> {
        match self.names.enumeration(id) {
            Some(definition) => if index < definition.variants@.len() {
                definition.variants@[index as int].payload
            } else {
                None
            },
            None => None,
        }
    }

    /// Lowers a pattern that is matched against a value of the given type.
    pub open spec fn lower_pattern(
        self,
        scrutinee: Type,
        pattern: ast::Pattern<'hir>,
        span: Span,
    ) -> (Body<'hir>, Outcome<PatternTree>)
        decreases pattern, 0nat,
    {
        let unit = Type::new(TypeKind::Unit);
        match pattern {
            ast::Pattern::Wildcard => (
                self,
                Ok(PatternTree { kind: PatternKindTree::Wildcard, span }),
            ),
            ast::Pattern::Literal(literal) => (
                self,
                Ok(
                    PatternTree {
                        kind: PatternKindTree::Literal(pattern_literal(literal)),
                        span,
                    },
                ),
            ),
            ast::Pattern::Or(alternatives) => match self.lower_patterns(
                scrutinee,
                alternatives@,
                0,
                seq![],
            ) {
                (body, Err(error)) => (body, Err(error)),
                (body, Ok(lowered)) => (
                    body,
                    Ok(PatternTree { kind: PatternKindTree::Or(lowered), span }),
                ),
            },
            ast::Pattern::Ident(name) => {
                let variant = match scrutinee.kind() {
                    TypeKind::Enum(id) => match self.variant_named(id, name@) {
                        Some(index) => Some((id, index)),
                        None => None,
                    },
                    _ => None,
                };
                match variant {
                    Some((id, index)) => if self.variant_payload(id, index) is Some {
                        (self, Err(mismatch(scrutinee, unit, span)))
                    } else {
                        (
                            self,
                            Ok(
                                PatternTree {
                                    kind: PatternKindTree::Variant {
                                        id,
                                        variant_idx: index,
                                        sub: None,
                                    },
                                    span,
                                },
                            ),
                        )
                    },
                    None => {
                        let (body, symbol) = self.insert(name@);
                        match body.declare_local(symbol, scrutinee, false, span) {
                            (body, Err(error)) => (body, Err(error)),
                            (body, Ok(id)) => (
                                body,
                                Ok(PatternTree { kind: PatternKindTree::Binding(id), span }),
                            ),
                        }
                    },
                }
            },
            ast::Pattern::Variant { qualifier, name, sub } => match enum_type_spec(scrutinee, span) {
                Err(error) => (self, Err(error)),
                Ok(id) => match self.check_qualifier(qualifier, id, name@, span) {
                    (body, Err(error)) => (body, Err(error)),
                    (body, Ok(_)) => match body.variant_named(id, name@) {
                        None => fail(body, HirErrorKind::UnknownType { name: name@ }, span),
                        Some(index) => match (sub, body.variant_payload(id, index)) {
                            (Some(sub), Some(payload)) => match body.lower_pattern(
                                payload,
                                sub.value,
                                sub.span,
                            ) {
                                (body, Err(error)) => (body, Err(error)),
                                (body, Ok(lowered)) => (
                                    body,
                                    Ok(
                                        PatternTree {
                                            kind: PatternKindTree::Variant {
                                                id,
                                                variant_idx: index,
                                                sub: Some(Box::new(lowered)),
                                            },
                                            span,
                                        },
                                    ),
                                ),
                            },
                            (None, None) => (
                                body,
                                Ok(
                                    PatternTree {
                                        kind: PatternKindTree::Variant {
                                            id,
                                            variant_idx: index,
                                            sub: None,
                                        },
                                        span,
                                    },
                                ),
                            ),
                            _ => (body, Err(mismatch(scrutinee, unit, span))),
                        },
                    },
                },
            },
        }
    }

    /// The qualifier of a variant pattern must name the enum, or the template it was made from.
    pub open spec fn check_qualifier(
        self,
        qualifier: Option<&'hir str>,
        id: EnumId,
        name: Seq<char>,
        span: Span,
    ) -> (Body<'hir>, Outcome<()>) {
        match qualifier {
            None => (self, Ok(())),
            Some(qualifier) => {
                let (body, symbol) = self.insert(qualifier@);
                if lookup(body.names.enum_map, symbol.0) == Some(id)
                    || body.names.generic_enums.contains_key(symbol.0) {
                    (body, Ok(()))
                } else {
                    fail(body, HirErrorKind::UnknownType { name: join(qualifier@, name) }, span)
                }
            },
        }
    }

    /// The alternatives of an or-pattern from position `at` on.
    pub open spec fn lower_patterns(
        self,
        scrutinee: Type,
        patterns: Seq<ast::Spanned<ast::Pattern<'hir>>>,
        at: nat,
        lowered: Seq<PatternTree>,
    ) -> (Body<'hir>, Outcome<Seq<PatternTree>>)
        decreases patterns, patterns.len() - at,
    {
        if at >= patterns.len() {
            (self, Ok(lowered))
        } else {
            match self.lower_pattern(
                scrutinee,
                patterns[at as int].value,
                patterns[at as int].span,
            ) {
                (body, Err(error)) => (body, Err(error)),
                (body, Ok(pattern)) => body.lower_patterns(
                    scrutinee,
                    patterns,
                    at + 1,
                    lowered.push(pattern),
                ),
            }
        }
    }

    /// A condition: an expression that must be a boolean.
    pub open spec fn lower_condition(self, expr: ast::Expression<'hir>, span: Option<Span>) -> (
        Body<'hir>,
        Outcome<LoweredTree<'hir>>,
    ) {
        match self.lower_expr(expr, None) {
            (body, Err(error)) => (body, Err(error)),
            (body, Ok(condition)) => match body.assert_type(
                Type::new(TypeKind::Bool),
                condition.typ,
                match span {
                    Some(span) => span,
                    None => condition.span,
                },
            ) {
                (body, Err(error)) => (body, Err(error)),
                (body, Ok(_)) => (body, Ok(condition)),
            },
        }
    }

    /// One arm of a match, and the type all arms are expected to have after it.
    pub open spec fn lower_arm(
        self,
        arm: ast::Arm<'hir>,
        scrutinee: Type,
        expected: Option<Type>,
    ) -> (Body<'hir>, Outcome<(ArmTree<'hir>, Option<Type>)>) {
        match self.push_scope().lower_pattern(scrutinee, arm.pattern.value, arm.pattern.span) {
            (body, Err(error)) => (body, Err(error)),
            (body, Ok(pattern)) => {
                let (body, guard) = match arm.guard {
                    None => (body, Ok(None)),
                    Some(guard) => match body.lower_condition(guard, None) {
                        (body, Err(error)) => (body, Err(error)),
                        (body, Ok(guard)) => (body, Ok(Some(guard.expr))),
                    },
                };
                match guard {
                    Err(error) => (body, Err(error)),
                    Ok(guard) => match body.lower_expr(arm.body, expected) {
                        (body, Err(error)) => (body, Err(error)),
                        (body, Ok(value)) => {
                            let checks = expected is Some && !value.typ.diverges();
                            let (body, checked) = if checks {
                                body.assert_type(expected->0, value.typ, value.span)
                            } else {
                                (body, Ok(()))
                            };
                            match checked {
                                Err(error) => (body, Err(error)),
                                Ok(_) => (
                                    body.pop_scope(),
                                    Ok(
                                        (
                                            ArmTree {
                                                pattern,
                                                guard,
                                                body: value.expr,
                                                span: arm.span,
                                            },
                                            if checks {
                                                expected
                                            } else {
                                                Some(value.typ)
                                            },
                                        ),
                                    ),
                                ),
                            }
                        },
                    },
                }
            },
        }
    }

    /// The arms of a match from position `at` on.
    pub open spec fn lower_arms(
        self,
        arms: Seq<ast::Arm<'hir>>,
        at: nat,
        scrutinee: Type,
        expected: Option<Type>,
        lowered: Seq<ArmTree<'hir>>,
    ) -> (Body<'hir>, Outcome<(Seq<ArmTree<'hir>>, Option<Type>)>)
        decreases arms.len() - at,
    {
        if at >= arms.len() {
            (self, Ok((lowered, expected)))
        } else {
            match self.lower_arm(arms[at as int], scrutinee, expected) {
                (body, Err(error)) => (body, Err(error)),
                (body, Ok((arm, expected))) => body.lower_arms(
                    arms,
                    at + 1,
                    scrutinee,
                    expected,
                    lowered.push(arm),
                ),
            }
        }
    }

    pub open spec fn lower_match(self, statement: ast::Match<'hir>, hint: Option<Type>) -> (
        Body<'hir>,
        Outcome<LoweredTree<'hir>>,
    ) {
        match self.lower_expr(statement.scrutinee, None) {
            (body, Err(error)) => (body, Err(error)),
            (body, Ok(scrutinee)) => match body.lower_arms(
                statement.arms@,
                0,
                scrutinee.typ,
                hint,
                seq![],
            ) {
                (body, Err(error)) => (body, Err(error)),
                (body, Ok((arms, typ))) => fine(
                    body.expr(
                        KindTree::Match { scrutinee: Box::new(scrutinee.expr), arms },
                        match typ {
                            Some(typ) => typ,
                            None => Type::new(TypeKind::Unit),
                        },
                        statement.span,
                    ),
                ),
            },
        }
    }

    /// Whether a statement in this position gives the value of the function.
    pub open spec fn gives_value(self, is_tail: bool) -> bool {
        is_tail && !(self.return_type.kind() is Unit)
    }

    /// What the value of a statement in this position is expected to be.
    pub open spec fn value_hint(self, is_tail: bool) -> Option<Type> {
        if self.gives_value(is_tail) {
            Some(self.return_type)
        } else {
            None
        }
    }

    /// An expression statement: at the end of a function it gives the function's value.
    pub open spec fn handle_tail_expr(self, expr: LoweredTree<'hir>, is_tail: bool) -> (
        Body<'hir>,
        Outcome<Step<'hir>>,
    ) {
        let tail = self.gives_value(is_tail);
        if tail && !expr.typ.diverges() {
            match self.assert_type(self.return_type, expr.typ, expr.span) {
                (body, Err(error)) => (body, Err(error)),
                (body, Ok(_)) => (
                    body,
                    Ok(
                        Step {
                            statement: Some(StatementTree::Return(Some(expr.expr))),
                            ends: true,
                        },
                    ),
                ),
            }
        } else {
            (
                self,
                Ok(
                    Step {
                        statement: Some(StatementTree::Expr(expr.expr)),
                        ends: tail || expr.typ.diverges(),
                    },
                ),
            )
        }
    }

    pub open spec fn lower_let(self, statement: ast::Let<'hir>) -> (Body<'hir>, Outcome<Step<'hir>>) {
        match (statement.typ, statement.value) {
            (Some(annotation), value) => {
                let (body, typ) = match self.resolve_type(annotation) {
                    (body, Err(error)) => body.poison(error),
                    (body, Ok(typ)) => (body, Ok(typ)),
                };
                match typ {
                    Err(error) => (body, Err(error)),
                    Ok(typ) => {
                        let (body, symbol) = body.insert(statement.name@);
                        match body.declare_local(
                            symbol,
                            typ,
                            statement.mutable,
                            statement.name_span,
                        ) {
                            (body, Err(error)) => (body, Err(error)),
                            (body, Ok(id)) => match value {
                                None => (
                                    body,
                                    Ok(
                                        Step {
                                            statement: Some(StatementTree::LetUninit { id }),
                                            ends: false,
                                        },
                                    ),
                                ),
                                Some(value) => match body.lower_expr(value, Some(typ)) {
                                    (body, Err(error)) => match body.soft(error) {
                                        (body, Err(error)) => (body, Err(error)),
                                        (body, Ok(_)) => (
                                            body,
                                            Ok(
                                                Step {
                                                    statement: Some(
                                                        StatementTree::LetUninit { id },
                                                    ),
                                                    ends: false,
                                                },
                                            ),
                                        ),
                                    },
                                    (body, Ok(init)) => match body.assert_type(
                                        typ,
                                        init.typ,
                                        init.span,
                                    ) {
                                        (body, Err(error)) => (body, Err(error)),
                                        (body, Ok(_)) => (
                                            body,
                                            Ok(
                                                Step {
                                                    statement: Some(
                                                        StatementTree::LetInit {
                                                            id,
                                                            init: init.expr,
                                                        },
                                                    ),
                                                    ends: init.typ.diverges(),
                                                },
                                            ),
                                        ),
                                    },
                                },
                            },
                        }
                    },
                }
            },
            (None, Some(value)) => match self.lower_expr(value, None) {
                (body, Err(error)) => match body.poison(error) {
                    (body, Err(error)) => (body, Err(error)),
                    (body, Ok(typ)) => {
                        let (body, symbol) = body.insert(statement.name@);
                        match body.declare_local(
                            symbol,
                            typ,
                            statement.mutable,
                            statement.name_span,
                        ) {
                            (body, Err(error)) => (body, Err(error)),
                            (body, Ok(id)) => (
                                body,
                                Ok(
                                    Step {
                                        statement: Some(StatementTree::LetUninit { id }),
                                        ends: false,
                                    },
                                ),
                            ),
                        }
                    },
                },
                (body, Ok(init)) => {
                    let (body, symbol) = body.insert(statement.name@);
                    match body.declare_local(
                        symbol,
                        init.typ,
                        statement.mutable,
                        statement.name_span,
                    ) {
                        (body, Err(error)) => (body, Err(error)),
                        (body, Ok(id)) => (
                            body,
                            Ok(
                                Step {
                                    statement: Some(
                                        StatementTree::LetInit { id, init: init.expr },
                                    ),
                                    ends: init.typ.diverges(),
                                },
                            ),
                        ),
                    }
                },
            },
            (None, None) => {
                let missing = HirError::new(
                    HirErrorKind::MissingInitialiser { name: statement.name@ },
                    statement.span,
                );
                match self.poison(missing) {
                    (body, Err(error)) => (body, Err(error)),
                    (body, Ok(typ)) => {
                        let (body, symbol) = body.insert(statement.name@);
                        match body.declare_local(
                            symbol,
                            typ,
                            statement.mutable,
                            statement.name_span,
                        ) {
                            (body, Err(error)) => (body, Err(error)),
                            (body, Ok(id)) => (
                                body,
                                Ok(
                                    Step {
                                        statement: Some(StatementTree::LetUninit { id }),
                                        ends: false,
                                    },
                                ),
                            ),
                        }
                    },
                }
            },
        }
    }

    /// The value of a constant inside a body, lowered on its own.
    pub open spec fn const_value(self, constant: ast::Const<'hir>, symbol: SymbolId, typ: Type) -> (
        Body<'hir>,
        Outcome<ConstTree<'hir>>,
    ) {
        let inner = Body {
            nodes: seq![],
            infer: Inference::empty(),
            is_const: true,
            in_const: true,
            ..self
        };
        let (inner, value) = inner.lower_checked(constant.value, typ);
        let (inner, outcome) = match value {
            Err(error) => (inner, Err(error)),
            Ok(value) => {
                let inner = inner.settle_nodes();
                (
                    inner,
                    Ok(
                        ConstTree {
                            name: symbol,
                            typ,
                            value: value.expr,
                            typeck: TypeckResults { nodes: slice_of(inner.nodes) },
                            is_pub: constant.is_pub,
                            decl_span: constant.span,
                        },
                    ),
                )
            },
        };
        (
            Body {
                nodes: self.nodes,
                infer: self.infer,
                is_const: self.is_const,
                in_const: self.in_const,
                ..inner
            },
            outcome,
        )
    }

    /// A constant inside a body: its name stands for its value from here on.
    pub open spec fn lower_body_const(self, constant: ast::Const<'hir>) -> (
        Body<'hir>,
        Outcome<Step<'hir>>,
    ) {
        let (body, typ) = match self.resolve_type(constant.typ) {
            (body, Err(error)) => body.poison(error),
            (body, Ok(typ)) => (body, Ok(typ)),
        };
        match typ {
            Err(error) => (body, Err(error)),
            Ok(typ) => {
                let (body, symbol) = body.insert(constant.name@);
                if body.is_taken(symbol) {
                    fail(
                        body,
                        HirErrorKind::DuplicateConstant { name: body.names.name(symbol) },
                        constant.span,
                    )
                } else {
                    match body.const_value(constant, symbol, typ) {
                        (body, Ok(value)) => (
                            Body {
                                bindings: body.bindings.push((symbol, BoundTree::Constant(value))),
                                ..body
                            },
                            Ok(Step { statement: None, ends: false }),
                        ),
                        (body, Err(error)) => match body.soft(error) {
                            (body, Err(error)) => (body, Err(error)),
                            (body, Ok(_)) => match body.declare_local(
                                symbol,
                                typ,
                                false,
                                constant.span,
                            ) {
                                (body, Err(error)) => (body, Err(error)),
                                (body, Ok(id)) => (
                                    body,
                                    Ok(
                                        Step {
                                            statement: Some(StatementTree::LetUninit { id }),
                                            ends: false,
                                        },
                                    ),
                                ),
                            },
                        },
                    }
                }
            },
        }
    }

    /// The header of a loop, whose binding is declared for the body.
    pub open spec fn lower_header(self, header: ast::LoopHeader<'hir>) -> (
        Body<'hir>,
        Outcome<LoopTree<'hir>>,
    ) {
        match header {
            ast::LoopHeader::Infinite => (self, Ok(LoopTree::Infinite)),
            ast::LoopHeader::Range { binding, start, end, inclusive } => match self.lower_expr(
                start,
                None,
            ) {
                (body, Err(error)) => (body, Err(error)),
                (body, Ok(start)) => match body.lower_checked(
                    end,
                    body.infer.resolve_shallow(start.typ),
                ) {
                    (body, Err(error)) => (body, Err(error)),
                    (body, Ok(end)) => {
                        let typ = body.infer.resolve_shallow(start.typ);
                        if !typ.is_integer() && !typ.is_infer() && !typ.is_error() {
                            fail(body, HirErrorKind::InvalidRangeType { typ }, start.span)
                        } else {
                            match binding {
                                None => (
                                    body,
                                    Ok(
                                        LoopTree::Range {
                                            binding: None,
                                            start: start.expr,
                                            end: end.expr,
                                            inclusive,
                                        },
                                    ),
                                ),
                                Some(binding) => {
                                    let (body, symbol) = body.insert(binding.value@);
                                    match body.declare_local(symbol, typ, false, binding.span) {
                                        (body, Err(error)) => (body, Err(error)),
                                        (body, Ok(id)) => (
                                            body,
                                            Ok(
                                                LoopTree::Range {
                                                    binding: Some(id),
                                                    start: start.expr,
                                                    end: end.expr,
                                                    inclusive,
                                                },
                                            ),
                                        ),
                                    }
                                },
                            }
                        }
                    },
                },
            },
            ast::LoopHeader::Iterable { binding, iterable } => match self.lower_expr(
                iterable,
                None,
            ) {
                (body, Err(error)) => (body, Err(error)),
                (body, Ok(iterable)) => match body.element_type(iterable.typ) {
                    None => fail(
                        body,
                        HirErrorKind::NotIndexable { typ: iterable.typ },
                        iterable.span,
                    ),
                    Some(element) => {
                        let (body, symbol) = body.insert(binding.value@);
                        match body.declare_local(symbol, element, false, binding.span) {
                            (body, Err(error)) => (body, Err(error)),
                            (body, Ok(id)) => (
                                body,
                                Ok(
                                    LoopTree::Iterable { binding: id, iterable: iterable.expr },
                                ),
                            ),
                        }
                    },
                },
            },
        }
    }

    /// A `break` or `continue`.
    pub open spec fn lower_control(
        self,
        kind: Seq<char>,
        statement: StatementTree<'hir>,
        span: Span,
    ) -> (Body<'hir>, Outcome<Step<'hir>>) {
        if self.loops == 0 {
            fail(self, HirErrorKind::LoopControlOutsideLoop { kind }, span)
        } else {
            (self, Ok(Step { statement: Some(statement), ends: false }))
        }
    }

    pub open spec fn lower_statement(self, statement: ast::Statement<'hir>, is_tail: bool) -> (
        Body<'hir>,
        Outcome<Step<'hir>>,
    )
        decreases statement, 2nat,
    {
        match statement {
            ast::Statement::Let(statement) => self.lower_let(statement),
            ast::Statement::Return(statement) => match statement.value {
                None => (
                    self,
                    Ok(Step { statement: Some(StatementTree::Return(None)), ends: true }),
                ),
                Some(value) => match self.lower_checked(value, self.return_type) {
                    (body, Err(error)) => (body, Err(error)),
                    (body, Ok(value)) => (
                        body,
                        Ok(
                            Step {
                                statement: Some(StatementTree::Return(Some(value.expr))),
                                ends: true,
                            },
                        ),
                    ),
                },
            },
            ast::Statement::If(statement) => self.lower_if(statement, is_tail),
            ast::Statement::While(statement) => self.lower_while(statement),
            ast::Statement::Loop(statement) => self.lower_loop(statement),
            ast::Statement::Break(span) => self.lower_control("break"@, StatementTree::Break, span),
            ast::Statement::Continue(span) => self.lower_control(
                "continue"@,
                StatementTree::Continue,
                span,
            ),
            ast::Statement::Expr(expr, _) => match self.lower_expr(expr, self.value_hint(is_tail)) {
                (body, Err(error)) => (body, Err(error)),
                (body, Ok(expr)) => body.handle_tail_expr(expr, is_tail),
            },
            ast::Statement::Block(block) => match self.lower_block(block, is_tail) {
                (body, Err(error)) => (body, Err(error)),
                (body, Ok((block, ends))) => (
                    body,
                    Ok(Step { statement: Some(StatementTree::Block(block)), ends }),
                ),
            },
            ast::Statement::Match(statement) => match self.lower_match(
                statement,
                self.value_hint(is_tail),
            ) {
                (body, Err(error)) => (body, Err(error)),
                (body, Ok(expr)) => body.handle_tail_expr(expr, is_tail),
            },
            ast::Statement::Item(item) => match item.kind {
                ast::ItemKind::Const(constant) => self.lower_body_const(*constant),
                kind => fail(
                    self,
                    HirErrorKind::NestedItem { kind: kind.keyword()@ },
                    kind.span(),
                ),
            },
        }
    }

    pub open spec fn lower_while(self, statement: ast::While<'hir>) -> (
        Body<'hir>,
        Outcome<Step<'hir>>,
    )
        decreases statement, 5nat,
    {
        match self.lower_condition(
            statement.condition,
            Some(statement.span),
        ) {
            (body, Err(error)) => (body, Err(error)),
            (body, Ok(condition)) => match body.lower_loop_body(statement.body) {
                (body, Err(error)) => (body, Err(error)),
                (body, Ok(block)) => (
                    body,
                    Ok(
                        Step {
                            statement: Some(
                                StatementTree::While {
                                    condition: condition.expr,
                                    body: block,
                                },
                            ),
                            ends: false,
                        },
                    ),
                ),
            },
        }
    }

    pub open spec fn lower_loop(self, statement: ast::Loop<'hir>) -> (
        Body<'hir>,
        Outcome<Step<'hir>>,
    )
        decreases statement, 5nat,
    {
        match self.push_scope().lower_header(
            statement.header,
        ) {
            (body, Err(error)) => (body, Err(error)),
            (body, Ok(kind)) => match body.lower_loop_body(statement.body) {
                (body, Err(error)) => (body, Err(error)),
                (body, Ok(block)) => (
                    body.pop_scope(),
                    Ok(
                        Step {
                            statement: Some(StatementTree::Loop { kind, body: block }),
                            ends: false,
                        },
                    ),
                ),
            },
        }
    }

    /// The body of a loop.
    pub open spec fn lower_loop_body(self, block: ast::Block<'hir>) -> (
        Body<'hir>,
        Outcome<BlockTree<'hir>>,
    )
        decreases block, 4nat,
    {
        let inside = Body { loops: self.loops.wrapping_add(1), ..self };
        match inside.lower_block(block, false) {
            (body, Err(error)) => (body, Err(error)),
            (body, Ok((block, _))) => (Body { loops: self.loops, ..body }, Ok(block)),
        }
    }

    /// A block, and whether control never gets past it.
    pub open spec fn lower_block(self, block: ast::Block<'hir>, is_tail: bool) -> (
        Body<'hir>,
        Outcome<(BlockTree<'hir>, bool)>,
    )
        decreases block, 3nat,
    {
        match self.push_scope().lower_statements(block.statements@, 0, is_tail, seq![], false) {
            (body, Err(error)) => (body, Err(error)),
            (body, Ok((statements, ends))) => (
                body.pop_scope(),
                Ok((BlockTree { statements, span: block.span }, ends)),
            ),
        }
    }

    /// The statements of a block from position `at` on. Outside recovery the first error ends it.
    /// In recovery a bad statement counts as one that control never gets past: what it would have
    /// done is unknown.
    pub open spec fn lower_statements(
        self,
        statements: Seq<ast::Statement<'hir>>,
        at: nat,
        is_tail: bool,
        lowered: Seq<StatementTree<'hir>>,
        ends: bool,
    ) -> (Body<'hir>, Outcome<(Seq<StatementTree<'hir>>, bool)>)
        decreases statements, statements.len() - at,
    {
        if at >= statements.len() {
            (self, Ok((lowered, ends)))
        } else {
            match self.lower_statement(
                statements[at as int],
                is_tail && at + 1 == statements.len(),
            ) {
                (body, Ok(step)) => body.lower_statements(
                    statements,
                    at + 1,
                    is_tail,
                    match step.statement {
                        Some(statement) => lowered.push(statement),
                        None => lowered,
                    },
                    ends || step.ends,
                ),
                (body, Err(error)) => match body.soft(error) {
                    (body, Err(error)) => (body, Err(error)),
                    (body, Ok(_)) => body.lower_statements(
                        statements,
                        at + 1,
                        is_tail,
                        lowered,
                        true,
                    ),
                },
            }
        }
    }

    pub open spec fn lower_if(self, statement: ast::If<'hir>, is_tail: bool) -> (
        Body<'hir>,
        Outcome<Step<'hir>>,
    )
        decreases statement, 2nat,
    {
        match self.lower_condition(statement.condition, None) {
            (body, Err(error)) => (body, Err(error)),
            (body, Ok(condition)) => match body.lower_block(statement.then_branch, is_tail) {
                (body, Err(error)) => (body, Err(error)),
                (body, Ok((then_block, then_ends))) => {
                    let (body, outcome) = match statement.else_branch {
                        None => (body, Ok((None, false))),
                        Some(branch) => match body.lower_else(*branch, is_tail) {
                            (body, Err(error)) => (body, Err(error)),
                            (body, Ok((block, ends))) => (body, Ok((Some(block), ends))),
                        },
                    };
                    match outcome {
                        Err(error) => (body, Err(error)),
                        Ok((else_block, else_ends)) => (
                            body,
                            Ok(
                                Step {
                                    statement: Some(
                                        StatementTree::If {
                                            condition: condition.expr,
                                            then_block,
                                            else_block,
                                        },
                                    ),
                                    ends: then_ends && else_ends,
                                },
                            ),
                        ),
                    }
                },
            },
        }
    }

    /// An else branch as a block.
    pub open spec fn lower_else(self, branch: ast::Else<'hir>, is_tail: bool) -> (
        Body<'hir>,
        Outcome<(BlockTree<'hir>, bool)>,
    )
        decreases branch, 4nat,
    {
        match branch {
            ast::Else::If(statement) => match self.lower_if(statement, is_tail) {
                (body, Err(error)) => (body, Err(error)),
                (body, Ok(step)) => (
                    body,
                    Ok(
                        (
                            BlockTree {
                                statements: match step.statement {
                                    Some(statement) => seq![statement],
                                    None => seq![],
                                },
                                span: statement.span,
                            },
                            step.ends,
                        ),
                    ),
                ),
            },
            ast::Else::Block(block) => self.lower_block(block, is_tail),
            ast::Else::Expr(expr) => match self.lower_expr(expr, self.value_hint(is_tail)) {
                (body, Err(error)) => (body, Err(error)),
                (body, Ok(lowered)) => if self.gives_value(is_tail) {
                    match body.assert_type(self.return_type, lowered.typ, lowered.span) {
                        (body, Err(error)) => (body, Err(error)),
                        (body, Ok(_)) => (
                            body,
                            Ok(
                                (
                                    BlockTree {
                                        statements: seq![
                                            StatementTree::Return(Some(lowered.expr)),
                                        ],
                                        span: lowered.span,
                                    },
                                    true,
                                ),
                            ),
                        ),
                    }
                } else {
                    (
                        body,
                        Ok(
                            (
                                BlockTree {
                                    statements: seq![StatementTree::Expr(lowered.expr)],
                                    span: lowered.span,
                                },
                                false,
                            ),
                        ),
                    )
                },
            },
        }
    }
}

/// A lowered statement as contracts see it.
pub open spec fn seen_step<'hir>(
    result: Result<(Option<Statement<'hir>>, bool), HirError<&'hir str>>,
) -> Outcome<Step<'hir>> {
    match result {
        Ok((statement, ends)) => Ok(
            Step {
                statement: match statement {
                    Some(statement) => Some(statement_tree(statement)),
                    None => None,
                },
                ends,
            },
        ),
        Err(error) => Err(error@),
    }
}

/// A lowered block as contracts see it.
pub open spec fn seen_block<'hir>(
    result: Result<(Block<'hir>, bool), HirError<&'hir str>>,
) -> Outcome<(BlockTree<'hir>, bool)> {
    match result {
        Ok((block, ends)) => Ok((block_tree(block), ends)),
        Err(error) => Err(error@),
    }
}

pub open spec fn seen_pattern<'hir>(result: Result<Pattern<'hir>, HirError<&'hir str>>) -> Outcome<
    PatternTree,
> {
    match result {
        Ok(pattern) => Ok(pattern_tree(pattern)),
        Err(error) => Err(error@),
    }
}

pub open spec fn seen_patterns<'hir>(
    result: Result<Vec<Pattern<'hir>>, HirError<&'hir str>>,
) -> Outcome<Seq<PatternTree>> {
    match result {
        Ok(patterns) => Ok(pattern_trees(patterns@)),
        Err(error) => Err(error@),
    }
}

pub open spec fn seen_arm<'hir>(
    result: Result<(Arm<'hir>, Option<Type>), HirError<&'hir str>>,
) -> Outcome<(ArmTree<'hir>, Option<Type>)> {
    match result {
        Ok((arm, typ)) => Ok((arm_tree(arm), typ)),
        Err(error) => Err(error@),
    }
}

pub open spec fn seen_arms<'hir>(
    result: Result<(Vec<Arm<'hir>>, Option<Type>), HirError<&'hir str>>,
) -> Outcome<(Seq<ArmTree<'hir>>, Option<Type>)> {
    match result {
        Ok((arms, typ)) => Ok((arm_trees(arms@), typ)),
        Err(error) => Err(error@),
    }
}

pub open spec fn seen_const<'hir>(
    result: Result<&'hir Constant<'hir>, HirError<&'hir str>>,
) -> Outcome<ConstTree<'hir>> {
    match result {
        Ok(constant) => Ok(const_tree(*constant)),
        Err(error) => Err(error@),
    }
}

pub open spec fn seen_loop<'hir>(
    result: Result<LoopKind<'hir>, HirError<&'hir str>>,
) -> Outcome<LoopTree<'hir>> {
    match result {
        Ok(kind) => Ok(loop_tree(kind)),
        Err(error) => Err(error@),
    }
}

pub open spec fn seen_loop_body<'hir>(
    result: Result<Block<'hir>, HirError<&'hir str>>,
) -> Outcome<BlockTree<'hir>> {
    match result {
        Ok(block) => Ok(block_tree(block)),
        Err(error) => Err(error@),
    }
}

pub open spec fn seen_statements<'hir>(
    result: Result<(Vec<Statement<'hir>>, bool), HirError<&'hir str>>,
) -> Outcome<(Seq<StatementTree<'hir>>, bool)> {
    match result {
        Ok((statements, ends)) => Ok((statement_trees(statements@), ends)),
        Err(error) => Err(error@),
    }
}

fn settle(infer: &mut InferTable, arrays: &mut ArrayTable, typ: Type, fuel: u128) -> (settled: Type)
    requires
        old(infer).wf(),
    ensures
        final(infer).wf(),
        final(infer)@ == old(infer)@,
        (final(arrays)@, settled) == resolve_deep(old(infer)@, old(arrays)@, typ, fuel as nat),
    decreases fuel,
{
    if fuel == 0 {
        match typ.kind() {
            TypeKind::Array(_) | TypeKind::Slice { .. } | TypeKind::Ref { .. } => {
                return Type::new(TypeKind::Error);
            },
            _ => {
                return infer.resolve_or_default(typ);
            },
        }
    }
    match typ.kind() {
        TypeKind::Array(id) => match arrays.find(id) {
            None => Type::new(TypeKind::Error),
            Some(array) => {
                let element = settle(infer, arrays, array.element, fuel - 1);
                if element != array.element {
                    arrays.resolve(id, element);
                }
                typ
            },
        },
        TypeKind::Slice { mutable, element } => {
            let inner = settle(infer, arrays, Type::from_target(element), fuel - 1);
            match RefTarget::from_type(inner) {
                Some(target) => Type::slice(target, mutable),
                None => typ,
            }
        },
        TypeKind::Ref { mutable, to } => {
            let inner = settle(infer, arrays, Type::from_target(to), fuel - 1);
            match RefTarget::from_type(inner) {
                Some(target) => Type::refer(target, mutable),
                None => typ,
            }
        },
        _ => infer.resolve_or_default(typ),
    }
}

fn settle_list(infer: &mut InferTable, arrays: &mut ArrayTable, types: &[Type], fuel: u128) -> (settled:
    Vec<Type>)
    requires
        old(infer).wf(),
    ensures
        final(infer).wf(),
        final(infer)@ == old(infer)@,
        (final(arrays)@, settled@) == resolve_list(
            old(infer)@,
            old(arrays)@,
            types@,
            0,
            seq![],
            fuel as nat,
        ),
{
    let mut settled: Vec<Type> = Vec::new();
    let mut i: usize = 0;
    while i < types.len()
        invariant
            infer.wf(),
            infer@ == old(infer)@,
            i <= types@.len(),
            resolve_list(old(infer)@, old(arrays)@, types@, 0, seq![], fuel as nat) == resolve_list(
                infer@,
                arrays@,
                types@,
                i as nat,
                settled@,
                fuel as nat,
            ),
        decreases types@.len() - i,
    {
        let typ = settle(infer, arrays, types[i], fuel);
        settled.push(typ);
        i += 1;
    }
    settled
}

impl<'hir> FunctionBuilder<'hir> {
    fn settle_node(&mut self, node: Node<'hir>, fuel: u128) -> (settled: Node<'hir>)
        requires
            old(self).wf(),
        ensures
            final(self).wf(),
            ({
                let (arrays, node) = resolve_node(
                    old(self)@.infer,
                    old(self)@.names.arrays,
                    node,
                    fuel as nat,
                );
                &&& settled == node
                &&& final(self)@ == (Body {
                    names: (Names { arrays, ..old(self)@.names }),
                    ..old(self)@
                })
            }),
            keeps(old(self)@.names.arrays, final(self)@.names.arrays),
            concrete_node(final(self)@.names.arrays.types, settled),
    {
        let ghost (infer, arrays) = (self.infer@, self.scope.arrays@);
        let typ = settle(&mut self.infer, &mut self.scope.arrays, node.typ, fuel);
        let settled = match node.args {
            None => Node { typ, ..node },
            Some(args) => {
                let args = settle_list(&mut self.infer, &mut self.scope.arrays, args, fuel);
                Node { typ, args: Some(self.scope.arena.place_slice(&args)), ..node }
            },
        };
        proof {
            lemma_node(infer, arrays, node, fuel as nat);
        }
        settled
    }

    /// Settles the inference variables of all expressions.
    fn settle_nodes(&mut self)
        requires
            old(self).wf(),
        ensures
            final(self).wf(),
            final(self)@ == old(self)@.settle_nodes(),
            keeps(old(self)@.names.arrays, final(self)@.names.arrays),
            forall|j: int|
                0 <= j < final(self)@.nodes.len() ==> concrete_node(
                    final(self)@.names.arrays.types,
                    #[trigger] final(self)@.nodes[j],
                ),
    {
        broadcast use lemma_keeps_same;

        let fuel: u128 = 2 * (self.scope.arrays.len() as u128) + 2;
        let mut i: usize = 0;
        while i < self.nodes.len()
            invariant
                self.wf(),
                i <= self.nodes@.len(),
                fuel == old(self)@.type_depth(),
                self@ == (Body {
                    nodes: self@.nodes,
                    names: (Names { arrays: self@.names.arrays, ..old(self)@.names }),
                    ..old(self)@
                }),
                resolve_nodes(
                    old(self)@.infer,
                    old(self)@.names.arrays,
                    old(self)@.nodes,
                    0,
                    fuel as nat,
                ) == resolve_nodes(
                    self@.infer,
                    self@.names.arrays,
                    self@.nodes,
                    i as nat,
                    fuel as nat,
                ),
                keeps(old(self)@.names.arrays, self@.names.arrays),
                forall|j: int|
                    0 <= j < i ==> concrete_node(self@.names.arrays.types, #[trigger] self@.nodes[j]),
            decreases self.nodes@.len() - i,
        {
            let ghost before = self@;
            let node = self.nodes[i];
            let settled = self.settle_node(node, fuel);
            self.nodes.set(i, settled);
            proof {
                lemma_keeps_trans(
                    old(self)@.names.arrays,
                    before.names.arrays,
                    self@.names.arrays,
                );
                assert forall|j: int| 0 <= j <= i implies concrete_node(
                    self@.names.arrays.types,
                    #[trigger] self@.nodes[j],
                ) by {
                    if j < i {
                        assert(self@.nodes[j] == before.nodes[j]);
                        lemma_kept_node(before.names.arrays, self@.names.arrays, before.nodes[j]);
                    }
                }
            }
            i += 1;
        }
    }

    /// Settles the inference variables of all locals.
    fn settle_locals(&mut self)
        requires
            old(self).wf(),
        ensures
            final(self).wf(),
            final(self)@ == old(self)@.settle_locals(),
            keeps(old(self)@.names.arrays, final(self)@.names.arrays),
            forall|j: int|
                0 <= j < final(self)@.locals.len() ==> concrete(
                    final(self)@.names.arrays.types,
                    (#[trigger] final(self)@.locals[j]).typ,
                ),
    {
        broadcast use lemma_keeps_same;

        let fuel: u128 = 2 * (self.scope.arrays.len() as u128) + 2;
        let mut i: usize = 0;
        while i < self.locals.len()
            invariant
                self.wf(),
                i <= self.locals@.len(),
                fuel == old(self)@.type_depth(),
                self@ == (Body {
                    locals: self@.locals,
                    names: (Names { arrays: self@.names.arrays, ..old(self)@.names }),
                    ..old(self)@
                }),
                resolve_locals(
                    old(self)@.infer,
                    old(self)@.names.arrays,
                    old(self)@.locals,
                    0,
                    fuel as nat,
                ) == resolve_locals(
                    self@.infer,
                    self@.names.arrays,
                    self@.locals,
                    i as nat,
                    fuel as nat,
                ),
                keeps(old(self)@.names.arrays, self@.names.arrays),
                forall|j: int|
                    0 <= j < i ==> concrete(self@.names.arrays.types, (#[trigger] self@.locals[j]).typ),
            decreases self.locals@.len() - i,
        {
            let ghost before = self@;
            let local = self.locals[i];
            let typ = settle(&mut self.infer, &mut self.scope.arrays, local.typ, fuel);
            self.locals.set(i, Local { typ, ..local });
            proof {
                let arrays = before.names.arrays;
                lemma_deep(before.infer, arrays, local.typ, fuel as nat);
                lemma_keeps_trans(old(self)@.names.arrays, arrays, self@.names.arrays);
                assert forall|j: int| 0 <= j <= i implies concrete(
                    self@.names.arrays.types,
                    (#[trigger] self@.locals[j]).typ,
                ) by {
                    reveal(keeps);
                    if j < i {
                        assert(self@.locals[j] == before.locals[j]);
                        assert(concrete(arrays.types, before.locals[j].typ));
                    }
                }
            }
            i += 1;
        }
    }

    /// Settles every inference variable that is left, open ones to `i32`. None is left in the
    /// types of expressions, generic arguments and locals.
    pub fn resolve_inference(&mut self)
        requires
            old(self).wf(),
        ensures
            final(self).wf(),
            final(self)@ == old(self)@.resolve_inference(),
            final(self)@.all_concrete(),
    {
        let ghost before = self@;
        self.settle_nodes();
        let ghost between = self@;
        self.settle_locals();
        proof {
            assert forall|j: int| 0 <= j < self@.nodes.len() implies concrete_node(
                self@.names.arrays.types,
                #[trigger] self@.nodes[j],
            ) by {
                lemma_kept_node(between.names.arrays, self@.names.arrays, between.nodes[j]);
            }
        }
    }

    fn variant_named(&self, id: EnumId, name: &str) -> (index: Option<usize>)
        ensures
            index == self@.variant_named(id, name@),
    {
        match (self.scope.enumeration(id), self.scope.symbols.get_id(name)) {
            (Some(definition), Some(symbol)) => find_variant(definition.variants, symbol),
            _ => None,
        }
    }

    fn variant_payload(&self, id: EnumId, index: usize) -> (payload: Option<Type>)
        ensures
            payload == self@.variant_payload(id, index),
    {
        match self.scope.enumeration(id) {
            Some(definition) => if index < definition.variants.len() {
                definition.variants[index].payload
            } else {
                None
            },
            None => None,
        }
    }

    /// Lowers a pattern that is matched against a value of the given type.
    pub fn lower_pattern(
        &mut self,
        scrutinee: Type,
        pattern: &'hir ast::Pattern<'hir>,
        span: Span,
    ) -> (outcome: Result<Pattern<'hir>, HirError<&'hir str>>)
        requires
            old(self).wf(),
        ensures
            final(self).wf(),
            (final(self)@, seen_pattern(outcome)) == old(self)@.lower_pattern(
                scrutinee,
                *pattern,
                span,
            ),
        decreases *pattern, 0nat,
    {
        let unit = Type::new(TypeKind::Unit);
        match pattern {
            ast::Pattern::Wildcard => Ok(Pattern { kind: PatternKind::Wildcard, span }),
            ast::Pattern::Literal(literal) => Ok(
                Pattern { kind: PatternKind::Literal(pattern_literal(*literal)), span },
            ),
            ast::Pattern::Or(alternatives) => match self.lower_patterns(scrutinee, alternatives) {
                Err(error) => Err(error),
                Ok(lowered) => {
                    let lowered = self.scope.arena.place(lowered);
                    Ok(Pattern { kind: PatternKind::Or(lowered), span })
                },
            },
            ast::Pattern::Ident(name) => {
                let variant = match scrutinee.kind() {
                    TypeKind::Enum(id) => match self.variant_named(id, name) {
                        Some(index) => Some((id, index)),
                        None => None,
                    },
                    _ => None,
                };
                match variant {
                    Some((id, index)) => if self.variant_payload(id, index).is_some() {
                        Err(mismatch_error(scrutinee, unit, span))
                    } else {
                        Ok(
                            Pattern {
                                kind: PatternKind::Variant { id, variant_idx: index, sub: None },
                                span,
                            },
                        )
                    },
                    None => {
                        let symbol = self.insert(name);
                        match self.declare_local(symbol, scrutinee, false, span) {
                            Err(error) => Err(error),
                            Ok(id) => Ok(Pattern { kind: PatternKind::Binding(id), span }),
                        }
                    },
                }
            },
            ast::Pattern::Variant { qualifier, name, sub } => {
                let id = match enum_type(scrutinee, span) {
                    Err(error) => return Err(error),
                    Ok(id) => id,
                };
                if let Err(error) = self.check_qualifier(*qualifier, id, name, span) {
                    return Err(error);
                }
                let index: usize = match self.variant_named(id, name) {
                    None => return Err(HirError::new(HirErrorKind::UnknownType { name }, span)),
                    Some(index) => index,
                };
                match (sub, self.variant_payload(id, index)) {
                    (Some(sub), Some(payload)) => match self.lower_pattern(
                        payload,
                        &sub.value,
                        sub.span,
                    ) {
                        Err(error) => Err(error),
                        Ok(lowered) => {
                            let lowered = self.scope.arena.place(lowered);
                            Ok(
                                Pattern {
                                    kind: PatternKind::Variant {
                                        id,
                                        variant_idx: index,
                                        sub: Some(lowered),
                                    },
                                    span,
                                },
                            )
                        },
                    },
                    (None, None) => Ok(
                        Pattern {
                            kind: PatternKind::Variant { id, variant_idx: index, sub: None },
                            span,
                        },
                    ),
                    _ => Err(mismatch_error(scrutinee, unit, span)),
                }
            },
        }
    }

    fn check_qualifier(
        &mut self,
        qualifier: Option<&'hir str>,
        id: EnumId,
        name: &'hir str,
        span: Span,
    ) -> (outcome: Result<(), HirError<&'hir str>>)
        requires
            old(self).wf(),
        ensures
            final(self).wf(),
            (final(self)@, seen(outcome)) == old(self)@.check_qualifier(qualifier, id, name@, span),
    {
        match qualifier {
            None => Ok(()),
            Some(qualifier) => {
                let symbol = self.insert(qualifier);
                let named = match get(&self.scope.enum_map, symbol) {
                    Some(found) => found == id,
                    None => false,
                };
                if named || self.scope.generic_enums.contains_key(&symbol.0) {
                    Ok(())
                } else {
                    let name = qualified(self.scope.arena, qualifier, name);
                    Err(HirError::new(HirErrorKind::UnknownType { name }, span))
                }
            },
        }
    }

    fn lower_patterns(
        &mut self,
        scrutinee: Type,
        patterns: &'hir Vec<ast::Spanned<ast::Pattern<'hir>>>,
    ) -> (outcome: Result<Vec<Pattern<'hir>>, HirError<&'hir str>>)
        requires
            old(self).wf(),
        ensures
            final(self).wf(),
            (final(self)@, seen_patterns(outcome)) == old(self)@.lower_patterns(
                scrutinee,
                patterns@,
                0,
                seq![],
            ),
        decreases patterns@, patterns@.len() + 1,
    {
        let mut lowered: Vec<Pattern<'hir>> = Vec::new();
        assert(pattern_trees(lowered@) =~= seq![]);
        let mut i: usize = 0;
        while i < patterns.len()
            invariant
                self.wf(),
                i <= patterns@.len(),
                old(self)@.lower_patterns(scrutinee, patterns@, 0, seq![]) == self@.lower_patterns(
                    scrutinee,
                    patterns@,
                    i as nat,
                    pattern_trees(lowered@),
                ),
            decreases patterns@.len() - i,
        {
            match self.lower_pattern(scrutinee, &patterns[i].value, patterns[i].span) {
                Err(error) => {
                    return Err(error);
                },
                Ok(pattern) => {
                    let ghost before = lowered@;
                    lowered.push(pattern);
                    assert(pattern_trees(lowered@) =~= pattern_trees(before).push(
                        pattern_tree(pattern),
                    ));
                },
            }
            i += 1;
        }
        Ok(lowered)
    }

    fn lower_condition(&mut self, expr: &'hir ast::Expression<'hir>, span: Option<Span>) -> (outcome:
        Result<Lowered<'hir>, HirError<&'hir str>>)
        requires
            old(self).wf(),
        ensures
            final(self).wf(),
            (final(self)@, seen_expr(outcome)) == old(self)@.lower_condition(*expr, span),
    {
        let condition = match self.lower_expr(expr, None) {
            Err(error) => return Err(error),
            Ok(condition) => condition,
        };
        let at = match span {
            Some(span) => span,
            None => condition.span,
        };
        match self.assert_type(Type::new(TypeKind::Bool), condition.typ, at) {
            Err(error) => Err(error),
            Ok(_) => Ok(condition),
        }
    }

    fn lower_arm(&mut self, arm: &'hir ast::Arm<'hir>, scrutinee: Type, expected: Option<Type>) -> (outcome:
        Result<(Arm<'hir>, Option<Type>), HirError<&'hir str>>)
        requires
            old(self).wf(),
        ensures
            final(self).wf(),
            (final(self)@, seen_arm(outcome)) == old(self)@.lower_arm(*arm, scrutinee, expected),
    {
        self.push_scope();
        let pattern = match self.lower_pattern(scrutinee, &arm.pattern.value, arm.pattern.span) {
            Err(error) => return Err(error),
            Ok(pattern) => pattern,
        };
        let pattern = self.scope.arena.place(pattern);
        let guard = match &arm.guard {
            None => None,
            Some(guard) => match self.lower_condition(guard, None) {
                Err(error) => return Err(error),
                Ok(guard) => Some(guard.expr),
            },
        };
        let value = match self.lower_expr(&arm.body, expected) {
            Err(error) => return Err(error),
            Ok(value) => value,
        };
        let mut after = Some(value.typ);
        if let Some(typ) = expected {
            if !value.typ.diverges() {
                if let Err(error) = self.assert_type(typ, value.typ, value.span) {
                    return Err(error);
                }
                after = expected;
            }
        }
        self.pop_scope();
        Ok((Arm { pattern, guard, body: value.expr, span: arm.span }, after))
    }

    fn lower_arms(
        &mut self,
        arms: &'hir Vec<ast::Arm<'hir>>,
        scrutinee: Type,
        hint: Option<Type>,
    ) -> (outcome: Result<(Vec<Arm<'hir>>, Option<Type>), HirError<&'hir str>>)
        requires
            old(self).wf(),
        ensures
            final(self).wf(),
            (final(self)@, seen_arms(outcome)) == old(self)@.lower_arms(
                arms@,
                0,
                scrutinee,
                hint,
                seq![],
            ),
    {
        let mut lowered: Vec<Arm<'hir>> = Vec::new();
        let mut expected = hint;
        assert(arm_trees(lowered@) =~= seq![]);
        let mut i: usize = 0;
        while i < arms.len()
            invariant
                self.wf(),
                i <= arms@.len(),
                old(self)@.lower_arms(arms@, 0, scrutinee, hint, seq![]) == self@.lower_arms(
                    arms@,
                    i as nat,
                    scrutinee,
                    expected,
                    arm_trees(lowered@),
                ),
            decreases arms@.len() - i,
        {
            match self.lower_arm(&arms[i], scrutinee, expected) {
                Err(error) => {
                    return Err(error);
                },
                Ok((arm, after)) => {
                    let ghost before = lowered@;
                    lowered.push(arm);
                    expected = after;
                    assert(arm_trees(lowered@) =~= arm_trees(before).push(arm_tree(arm)));
                },
            }
            i += 1;
        }
        Ok((lowered, expected))
    }

    pub fn lower_match(&mut self, statement: &'hir ast::Match<'hir>, hint: Option<Type>) -> (outcome:
        Result<Lowered<'hir>, HirError<&'hir str>>)
        requires
            old(self).wf(),
        ensures
            final(self).wf(),
            (final(self)@, seen_expr(outcome)) == old(self)@.lower_match(*statement, hint),
    {
        let scrutinee = match self.lower_expr(&statement.scrutinee, None) {
            Err(error) => return Err(error),
            Ok(scrutinee) => scrutinee,
        };
        let (arms, typ) = match self.lower_arms(statement.arms, scrutinee.typ, hint) {
            Err(error) => return Err(error),
            Ok(lowered) => lowered,
        };
        let typ = match typ {
            Some(typ) => typ,
            None => Type::new(TypeKind::Unit),
        };
        let arms = self.scope.arena.place(arms);
        Ok(
            self.expr(
                ExpressionKind::Match { scrutinee: scrutinee.expr, arms },
                typ,
                statement.span,
            ),
        )
    }

    fn gives_value(&self, is_tail: bool) -> (gives: bool)
        ensures
            gives == self@.gives_value(is_tail),
    {
        let unit = match self.return_type.kind() {
            TypeKind::Unit => true,
            _ => false,
        };
        is_tail && !unit
    }

    fn value_hint(&self, is_tail: bool) -> (hint: Option<Type>)
        ensures
            hint == self@.value_hint(is_tail),
    {
        if self.gives_value(is_tail) {
            Some(self.return_type)
        } else {
            None
        }
    }

    fn handle_tail_expr(&mut self, expr: Lowered<'hir>, is_tail: bool) -> (outcome: Result<
        (Option<Statement<'hir>>, bool),
        HirError<&'hir str>,
    >)
        requires
            old(self).wf(),
        ensures
            final(self).wf(),
            (final(self)@, seen_step(outcome)) == old(self)@.handle_tail_expr(expr@, is_tail),
    {
        let tail = self.gives_value(is_tail);
        if tail && !expr.typ.diverges() {
            let return_type = self.return_type;
            match self.assert_type(return_type, expr.typ, expr.span) {
                Err(error) => Err(error),
                Ok(_) => Ok((Some(Statement::Return(Some(expr.expr))), true)),
            }
        } else {
            Ok((Some(Statement::Expr(expr.expr)), tail || expr.typ.diverges()))
        }
    }

    fn lower_let(&mut self, statement: &'hir ast::Let<'hir>) -> (outcome: Result<
        (Option<Statement<'hir>>, bool),
        HirError<&'hir str>,
    >)
        requires
            old(self).wf(),
        ensures
            final(self).wf(),
            (final(self)@, seen_step(outcome)) == old(self)@.lower_let(*statement),
    {
        let (typ, inferred) = match (&statement.typ, &statement.value) {
            (Some(annotation), _) => {
                let typ = match self.resolve_type(annotation) {
                    Ok(typ) => typ,
                    Err(error) => match self.poison(error) {
                        Err(error) => return Err(error),
                        Ok(typ) => typ,
                    },
                };
                (typ, None)
            },
            (None, Some(value)) => match self.lower_expr(value, None) {
                Ok(init) => (init.typ, Some(init)),
                Err(error) => match self.poison(error) {
                    Err(error) => return Err(error),
                    Ok(typ) => (typ, None),
                },
            },
            (None, None) => {
                let missing = HirError::new(
                    HirErrorKind::MissingInitialiser { name: statement.name },
                    statement.span,
                );
                match self.poison(missing) {
                    Err(error) => return Err(error),
                    Ok(typ) => (typ, None),
                }
            },
        };
        let symbol = self.insert(statement.name);
        let id = match self.declare_local(symbol, typ, statement.mutable, statement.name_span) {
            Err(error) => return Err(error),
            Ok(id) => id,
        };
        if let Some(init) = inferred {
            return Ok((Some(Statement::LetInit { id, init: init.expr }), init.typ.diverges()));
        }
        match (&statement.typ, &statement.value) {
            (Some(_), Some(value)) => match self.lower_expr(value, Some(typ)) {
                Err(error) => match self.soft(error) {
                    Err(error) => Err(error),
                    Ok(_) => Ok((Some(Statement::LetUninit { id }), false)),
                },
                Ok(init) => match self.assert_type(typ, init.typ, init.span) {
                    Err(error) => Err(error),
                    Ok(_) => Ok(
                        (Some(Statement::LetInit { id, init: init.expr }), init.typ.diverges()),
                    ),
                },
            },
            _ => Ok((Some(Statement::LetUninit { id }), false)),
        }
    }

    fn const_value(&mut self, constant: &'hir ast::Const<'hir>, symbol: SymbolId, typ: Type) -> (outcome:
        Result<&'hir Constant<'hir>, HirError<&'hir str>>)
        requires
            old(self).wf(),
        ensures
            final(self).wf(),
            (final(self)@, seen_const(outcome)) == old(self)@.const_value(*constant, symbol, typ),
    {
        let mut nodes: Vec<Node<'hir>> = Vec::new();
        let mut infer = InferTable::new();
        let is_const = self.is_const;
        let in_const = self.in_const;
        std::mem::swap(&mut self.nodes, &mut nodes);
        std::mem::swap(&mut self.infer, &mut infer);
        self.is_const = true;
        self.in_const = true;
        let value = self.lower_checked(&constant.value, typ);
        if value.is_ok() {
            self.settle_nodes();
        }
        std::mem::swap(&mut self.nodes, &mut nodes);
        std::mem::swap(&mut self.infer, &mut infer);
        self.is_const = is_const;
        self.in_const = in_const;
        match value {
            Err(error) => Err(error),
            Ok(value) => {
                let typeck = TypeckResults { nodes: self.scope.arena.place_slice(&nodes) };
                Ok(
                    self.scope.arena.place(
                        Constant {
                            name: symbol,
                            typ,
                            value: value.expr,
                            typeck,
                            is_pub: constant.is_pub,
                            decl_span: constant.span,
                        },
                    ),
                )
            },
        }
    }

    fn lower_body_const(&mut self, constant: &'hir ast::Const<'hir>) -> (outcome: Result<
        (Option<Statement<'hir>>, bool),
        HirError<&'hir str>,
    >)
        requires
            old(self).wf(),
        ensures
            final(self).wf(),
            (final(self)@, seen_step(outcome)) == old(self)@.lower_body_const(*constant),
    {
        let typ = match self.resolve_type(&constant.typ) {
            Ok(typ) => typ,
            Err(error) => match self.poison(error) {
                Err(error) => return Err(error),
                Ok(typ) => typ,
            },
        };
        let symbol = self.insert(constant.name);
        if self.is_taken(symbol) {
            let name = self.scope.arena.place_str(self.scope.symbols.name(symbol));
            return Err(HirError::new(HirErrorKind::DuplicateConstant { name }, constant.span));
        }
        match self.const_value(constant, symbol, typ) {
            Ok(value) => {
                let ghost before = self.bindings@;
                self.bindings.push((symbol, Bound::Constant(value)));
                assert(binding_trees(self.bindings@) =~= binding_trees(before).push(
                    (symbol, BoundTree::Constant(const_tree(*value))),
                ));
                Ok((None, false))
            },
            Err(error) => {
                if let Err(error) = self.soft(error) {
                    return Err(error);
                }
                match self.declare_local(symbol, typ, false, constant.span) {
                    Err(error) => Err(error),
                    Ok(id) => Ok((Some(Statement::LetUninit { id }), false)),
                }
            },
        }
    }

    fn lower_header(&mut self, header: &'hir ast::LoopHeader<'hir>) -> (outcome: Result<
        LoopKind<'hir>,
        HirError<&'hir str>,
    >)
        requires
            old(self).wf(),
        ensures
            final(self).wf(),
            (final(self)@, seen_loop(outcome)) == old(self)@.lower_header(*header),
    {
        match header {
            ast::LoopHeader::Infinite => Ok(LoopKind::Infinite),
            ast::LoopHeader::Range { binding, start, end, inclusive } => {
                let start = match self.lower_expr(start, None) {
                    Err(error) => return Err(error),
                    Ok(start) => start,
                };
                let expected = self.infer.resolve_shallow(start.typ);
                let end = match self.lower_checked(end, expected) {
                    Err(error) => return Err(error),
                    Ok(end) => end,
                };
                let typ = self.infer.resolve_shallow(start.typ);
                if !typ.is_integer() && !typ.is_infer() && !typ.is_error() {
                    return Err(HirError::new(HirErrorKind::InvalidRangeType { typ }, start.span));
                }
                let binding = match binding {
                    None => None,
                    Some(binding) => {
                        let symbol = self.insert(binding.value);
                        match self.declare_local(symbol, typ, false, binding.span) {
                            Err(error) => return Err(error),
                            Ok(id) => Some(id),
                        }
                    },
                };
                Ok(
                    LoopKind::Range {
                        binding,
                        start: start.expr,
                        end: end.expr,
                        inclusive: *inclusive,
                    },
                )
            },
            ast::LoopHeader::Iterable { binding, iterable } => {
                let iterable = match self.lower_expr(iterable, None) {
                    Err(error) => return Err(error),
                    Ok(iterable) => iterable,
                };
                let element = match self.element_type(iterable.typ) {
                    None => {
                        return Err(
                            HirError::new(
                                HirErrorKind::NotIndexable { typ: iterable.typ },
                                iterable.span,
                            ),
                        );
                    },
                    Some(element) => element,
                };
                let symbol = self.insert(binding.value);
                match self.declare_local(symbol, element, false, binding.span) {
                    Err(error) => Err(error),
                    Ok(id) => Ok(LoopKind::Iterable { binding: id, iterable: iterable.expr }),
                }
            },
        }
    }

    #[verifier::rlimit(40)]
    fn lower_statement(&mut self, statement: &'hir ast::Statement<'hir>, is_tail: bool) -> (outcome:
        Result<(Option<Statement<'hir>>, bool), HirError<&'hir str>>)
        requires
            old(self).wf(),
        ensures
            final(self).wf(),
            (final(self)@, seen_step(outcome)) == old(self)@.lower_statement(*statement, is_tail),
        decreases *statement, 2nat,
    {
        match statement {
            ast::Statement::Let(statement) => self.lower_let(statement),
            ast::Statement::Return(statement) => match &statement.value {
                None => Ok((Some(Statement::Return(None)), true)),
                Some(value) => {
                    let return_type = self.return_type;
                    match self.lower_checked(value, return_type) {
                        Err(error) => Err(error),
                        Ok(value) => Ok((Some(Statement::Return(Some(value.expr))), true)),
                    }
                },
            },
            ast::Statement::If(statement) => self.lower_if(statement, is_tail),
            ast::Statement::While(statement) => self.lower_while(statement),
            ast::Statement::Loop(statement) => self.lower_loop(statement),
            ast::Statement::Break(span) => if self.loops == 0 {
                Err(HirError::new(HirErrorKind::LoopControlOutsideLoop { kind: "break" }, *span))
            } else {
                Ok((Some(Statement::Break), false))
            },
            ast::Statement::Continue(span) => if self.loops == 0 {
                Err(
                    HirError::new(
                        HirErrorKind::LoopControlOutsideLoop { kind: "continue" },
                        *span,
                    ),
                )
            } else {
                Ok((Some(Statement::Continue), false))
            },
            ast::Statement::Expr(expr, _) => {
                let hint = self.value_hint(is_tail);
                match self.lower_expr(expr, hint) {
                    Err(error) => Err(error),
                    Ok(expr) => self.handle_tail_expr(expr, is_tail),
                }
            },
            ast::Statement::Block(block) => match self.lower_block(block, is_tail) {
                Err(error) => Err(error),
                Ok((block, ends)) => Ok((Some(Statement::Block(block)), ends)),
            },
            ast::Statement::Match(statement) => {
                let hint = self.value_hint(is_tail);
                match self.lower_match(statement, hint) {
                    Err(error) => Err(error),
                    Ok(expr) => self.handle_tail_expr(expr, is_tail),
                }
            },
            ast::Statement::Item(item) => match &item.kind {
                ast::ItemKind::Const(constant) => self.lower_body_const(constant),
                kind => Err(
                    HirError::new(HirErrorKind::NestedItem { kind: kind.keyword() }, kind.span()),
                ),
            },
        }
    }

    fn lower_while(&mut self, statement: &'hir ast::While<'hir>) -> (outcome: Result<
        (Option<Statement<'hir>>, bool),
        HirError<&'hir str>,
    >)
        requires
            old(self).wf(),
        ensures
            final(self).wf(),
            (final(self)@, seen_step(outcome)) == old(self)@.lower_while(*statement),
        decreases *statement, 5nat,
    {
        let condition = match self.lower_condition(&statement.condition, Some(statement.span)) {
            Err(error) => return Err(error),
            Ok(condition) => condition,
        };
        match self.lower_loop_body(&statement.body) {
            Err(error) => Err(error),
            Ok(body) => Ok((Some(Statement::While { condition: condition.expr, body }), false)),
        }
    }

    fn lower_loop(&mut self, statement: &'hir ast::Loop<'hir>) -> (outcome: Result<
        (Option<Statement<'hir>>, bool),
        HirError<&'hir str>,
    >)
        requires
            old(self).wf(),
        ensures
            final(self).wf(),
            (final(self)@, seen_step(outcome)) == old(self)@.lower_loop(*statement),
        decreases *statement, 5nat,
    {
        self.push_scope();
        let kind = match self.lower_header(&statement.header) {
            Err(error) => return Err(error),
            Ok(kind) => kind,
        };
        match self.lower_loop_body(&statement.body) {
            Err(error) => Err(error),
            Ok(body) => {
                self.pop_scope();
                Ok((Some(Statement::Loop { kind, body }), false))
            },
        }
    }

    fn lower_loop_body(&mut self, block: &'hir ast::Block<'hir>) -> (outcome: Result<
        Block<'hir>,
        HirError<&'hir str>,
    >)
        requires
            old(self).wf(),
        ensures
            final(self).wf(),
            (final(self)@, seen_loop_body(outcome)) == old(self)@.lower_loop_body(*block),
        decreases *block, 4nat,
    {
        let loops: usize = self.loops;
        self.loops = loops.wrapping_add(1);
        match self.lower_block(block, false) {
            Err(error) => Err(error),
            Ok((block, _)) => {
                self.loops = loops;
                Ok(block)
            },
        }
    }

    /// Lowers a block, and tells whether control never gets past it.
    pub fn lower_block(&mut self, block: &'hir ast::Block<'hir>, is_tail: bool) -> (outcome: Result<
        (Block<'hir>, bool),
        HirError<&'hir str>,
    >)
        requires
            old(self).wf(),
        ensures
            final(self).wf(),
            (final(self)@, seen_block(outcome)) == old(self)@.lower_block(*block, is_tail),
        decreases *block, 3nat,
    {
        self.push_scope();
        let (statements, ends) = match self.lower_statements(block.statements, is_tail) {
            Err(error) => return Err(error),
            Ok(lowered) => lowered,
        };
        self.pop_scope();
        let statements = self.scope.arena.place(statements);
        Ok((Block { statements, span: block.span }, ends))
    }

    fn lower_statements(
        &mut self,
        statements: &'hir Vec<ast::Statement<'hir>>,
        is_tail: bool,
    ) -> (outcome: Result<(Vec<Statement<'hir>>, bool), HirError<&'hir str>>)
        requires
            old(self).wf(),
        ensures
            final(self).wf(),
            (final(self)@, seen_statements(outcome)) == old(self)@.lower_statements(
                statements@,
                0,
                is_tail,
                seq![],
                false,
            ),
        decreases statements@, statements@.len() + 1,
    {
        let mut lowered: Vec<Statement<'hir>> = Vec::new();
        let mut ends = false;
        assert(statement_trees(lowered@) =~= seq![]);
        let mut i: usize = 0;
        while i < statements.len()
            invariant
                self.wf(),
                i <= statements@.len(),
                old(self)@.lower_statements(statements@, 0, is_tail, seq![], false)
                    == self@.lower_statements(
                    statements@,
                    i as nat,
                    is_tail,
                    statement_trees(lowered@),
                    ends,
                ),
            decreases statements@.len() - i,
        {
            match self.lower_statement(&statements[i], is_tail && i + 1 == statements.len()) {
                Ok((statement, ended)) => {
                    if let Some(statement) = statement {
                        let ghost before = lowered@;
                        lowered.push(statement);
                        assert(statement_trees(lowered@) =~= statement_trees(before).push(
                            statement_tree(statement),
                        ));
                    }
                    ends = ends || ended;
                },
                Err(error) => {
                    if let Err(error) = self.soft(error) {
                        return Err(error);
                    }
                    ends = true;
                },
            }
            i += 1;
        }
        Ok((lowered, ends))
    }

    fn lower_if(&mut self, statement: &'hir ast::If<'hir>, is_tail: bool) -> (outcome: Result<
        (Option<Statement<'hir>>, bool),
        HirError<&'hir str>,
    >)
        requires
            old(self).wf(),
        ensures
            final(self).wf(),
            (final(self)@, seen_step(outcome)) == old(self)@.lower_if(*statement, is_tail),
        decreases *statement, 2nat,
    {
        let condition = match self.lower_condition(&statement.condition, None) {
            Err(error) => return Err(error),
            Ok(condition) => condition,
        };
        let (then_block, then_ends) = match self.lower_block(&statement.then_branch, is_tail) {
            Err(error) => return Err(error),
            Ok(lowered) => lowered,
        };
        let (else_block, else_ends) = match statement.else_branch {
            None => (None, false),
            Some(branch) => match self.lower_else(branch, is_tail) {
                Err(error) => return Err(error),
                Ok((block, ends)) => (Some(block), ends),
            },
        };
        Ok(
            (
                Some(Statement::If { condition: condition.expr, then_block, else_block }),
                then_ends && else_ends,
            ),
        )
    }

    fn lower_else(&mut self, branch: &'hir ast::Else<'hir>, is_tail: bool) -> (outcome: Result<
        (Block<'hir>, bool),
        HirError<&'hir str>,
    >)
        requires
            old(self).wf(),
        ensures
            final(self).wf(),
            (final(self)@, seen_block(outcome)) == old(self)@.lower_else(*branch, is_tail),
        decreases *branch, 4nat,
    {
        match branch {
            ast::Else::If(statement) => match self.lower_if(statement, is_tail) {
                Err(error) => Err(error),
                Ok((lowered, ends)) => {
                    let mut statements: Vec<Statement<'hir>> = Vec::new();
                    if let Some(lowered) = lowered {
                        statements.push(lowered);
                    }
                    assert(statement_trees(statements@) =~= (match lowered {
                        Some(lowered) => seq![statement_tree(lowered)],
                        None => seq![],
                    }));
                    let statements = self.scope.arena.place(statements);
                    Ok((Block { statements, span: statement.span }, ends))
                },
            },
            ast::Else::Block(block) => self.lower_block(block, is_tail),
            ast::Else::Expr(expr) => {
                let tail = self.gives_value(is_tail);
                let hint = self.value_hint(is_tail);
                let return_type = self.return_type;
                let lowered = match self.lower_expr(expr, hint) {
                    Err(error) => return Err(error),
                    Ok(lowered) => lowered,
                };
                let statement = if tail {
                    if let Err(error) = self.assert_type(return_type, lowered.typ, lowered.span) {
                        return Err(error);
                    }
                    Statement::Return(Some(lowered.expr))
                } else {
                    Statement::Expr(lowered.expr)
                };
                let mut statements: Vec<Statement<'hir>> = Vec::new();
                statements.push(statement);
                assert(statement_trees(statements@) =~= seq![statement_tree(statement)]);
                let statements = self.scope.arena.place(statements);
                Ok((Block { statements, span: lowered.span }, tail))
            },
        }
    }
}

} // verus!
