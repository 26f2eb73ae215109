//! Lowering of expressions: name resolution and bidirectional type checking.

use crate::ast;
use crate::ast::{BinaryOperator, Span, UnaryOperator};
use crate::hir::body::{
    last_binding, mismatch, mismatch_error, seen_expr, Body, Bound, BoundTree, FunctionBuilder,
    Lowered, LoweredTree,
};
use crate::hir::error::{seen, ComparisonInterface, HirError, HirErrorKind};
use crate::hir::scope::Outcome;
use crate::hir::symbols::{join, qualified, SymbolId};
use crate::hir::table::{get, get_id, get_pair, lookup, nested_key};
use crate::hir::tree::{
    expr_tree, expr_trees, EnumVariant, ExprId, ExprTree, Expression, ExpressionKind, KindTree,
    Literal, LocalId, Node, Res, StructField, SyscallCode,
};
use crate::hir::type_resolver::{
    contains_symbol, ref_target, ref_target_spec, ResolveCtx, MAX_DEPTH,
};
use crate::hir::types::{EnumId, RefTarget, RefTargetKind, StructId, Type, TypeKind};
use crate::text::text_eq;
use vstd::prelude::*;

verus! {

broadcast use vstd::std_specs::hash::group_hash_axioms;

impl BinaryOperator {
    /// The method that overloads a comparison.
    #[verifier::allow_in_spec]
    pub fn overload_method(self) -> Option<&'static str>
        returns
            (match self {
                BinaryOperator::Eq => Some("eq"),
                BinaryOperator::Ne => Some("ne"),
                BinaryOperator::Lt => Some("lt"),
                BinaryOperator::LtEq => Some("le"),
                BinaryOperator::Gt => Some("gt"),
                BinaryOperator::GtEq => Some("ge"),
                _ => None,
            }),
    {
        match self {
            BinaryOperator::Eq => Some("eq"),
            BinaryOperator::Ne => Some("ne"),
            BinaryOperator::Lt => Some("lt"),
            BinaryOperator::LtEq => Some("le"),
            BinaryOperator::Gt => Some("gt"),
            BinaryOperator::GtEq => Some("ge"),
            _ => None,
        }
    }

    /// The interface a comparison needs.
    #[verifier::allow_in_spec]
    pub fn required_interface(self) -> ComparisonInterface
        returns
            (match self {
                BinaryOperator::Eq | BinaryOperator::Ne => ComparisonInterface::Equality,
                _ => ComparisonInterface::Order,
            }),
    {
        match self {
            BinaryOperator::Eq | BinaryOperator::Ne => ComparisonInterface::Equality,
            _ => ComparisonInterface::Order,
        }
    }

    /// The operator as written.
    #[verifier::allow_in_spec]
    pub fn symbol(self) -> &'static str
        returns
            (match self {
                BinaryOperator::Add => "+",
                BinaryOperator::Sub => "-",
                BinaryOperator::Mul => "*",
                BinaryOperator::Div => "/",
                BinaryOperator::Eq => "==",
                BinaryOperator::Ne => "!=",
                BinaryOperator::Lt => "<",
                BinaryOperator::LtEq => "<=",
                BinaryOperator::Gt => ">",
                BinaryOperator::GtEq => ">=",
                BinaryOperator::And => "&&",
                BinaryOperator::Or => "||",
                BinaryOperator::BitAnd => "&",
                BinaryOperator::BitOr => "|",
                BinaryOperator::BitXor => "^",
                BinaryOperator::Shl => "<<",
                BinaryOperator::Shr => ">>",
            }),
    {
        match self {
            BinaryOperator::Add => "+",
            BinaryOperator::Sub => "-",
            BinaryOperator::Mul => "*",
            BinaryOperator::Div => "/",
            BinaryOperator::Eq => "==",
            BinaryOperator::Ne => "!=",
            BinaryOperator::Lt => "<",
            BinaryOperator::LtEq => "<=",
            BinaryOperator::Gt => ">",
            BinaryOperator::GtEq => ">=",
            BinaryOperator::And => "&&",
            BinaryOperator::Or => "||",
            BinaryOperator::BitAnd => "&",
            BinaryOperator::BitOr => "|",
            BinaryOperator::BitXor => "^",
            BinaryOperator::Shl => "<<",
            BinaryOperator::Shr => ">>",
        }
    }
}

impl SyscallCode {
    /// The system call of the given name.
    pub open spec fn named(name: Seq<char>) -> Option<SyscallCode> {
        if name == "SYS_WRITE"@ {
            Some(SyscallCode::Write)
        } else if name == "SYS_EXIT"@ {
            Some(SyscallCode::Exit)
        } else {
            None
        }
    }

    pub fn from_name(name: &str) -> (code: Option<SyscallCode>)
        ensures
            code == SyscallCode::named(name@),
    {
        if text_eq(name, "SYS_WRITE") {
            Some(SyscallCode::Write)
        } else if text_eq(name, "SYS_EXIT") {
            Some(SyscallCode::Exit)
        } else {
            None
        }
    }
}

/// An expression together with the state that made it, as an outcome.
pub open spec fn fine<'hir, T>(step: (Body<'hir>, T)) -> (Body<'hir>, Outcome<T>) {
    (step.0, Ok(step.1))
}

pub open spec fn fail<'hir, T>(
    body: Body<'hir>,
    kind: HirErrorKind<Seq<char>>,
    span: Span,
) -> (Body<'hir>, Outcome<T>) {
    (body, Err(HirError::new(kind, span)))
}

/// The local variable a place expression starts from.
pub open spec fn place_base_local_spec(expr: ExprTree) -> Option<LocalId>
    decreases expr,
{
    match expr.kind {
        KindTree::Local(id) => Some(id),
        KindTree::Field { base, field } => place_base_local_spec(*base),
        KindTree::Index { base, index } => place_base_local_spec(*base),
        _ => None,
    }
}

pub fn place_base_local(expr: &Expression) -> (local: Option<LocalId>)
    ensures
        local == place_base_local_spec(expr_tree(*expr)),
    decreases expr,
{
    match expr.kind {
        ExpressionKind::Local(id) => Some(id),
        ExpressionKind::Field { base, .. } => place_base_local(base),
        ExpressionKind::Index { base, .. } => place_base_local(base),
        _ => None,
    }
}

/// The first field of a definition whose name is not among `given`.
pub open spec fn missing_field(
    fields: Seq<StructField>,
    given: Seq<SymbolId>,
    at: int,
) -> Option<SymbolId>
    decreases fields.len() - at,
{
    if at < 0 || at >= fields.len() {
        None
    } else if !given.contains(fields[at].name) {
        Some(fields[at].name)
    } else {
        missing_field(fields, given, at + 1)
    }
}

pub fn find_missing(fields: &[StructField], given: &Vec<SymbolId>) -> (missing: Option<SymbolId>)
    ensures
        missing == missing_field(fields@, given@, 0),
{
    let mut i: usize = 0;
    while i < fields.len()
        invariant
            i <= fields@.len(),
            missing_field(fields@, given@, 0) == missing_field(fields@, given@, i as int),
        decreases fields@.len() - i,
    {
        if !contains_symbol(given, fields[i].name) {
            return Some(fields[i].name);
        }
        i += 1;
    }
    None
}

/// The type of the named field, from position `at` on.
pub open spec fn field_type(fields: Seq<StructField>, name: SymbolId, at: int) -> Option<Type>
    decreases fields.len() - at,
{
    if at < 0 || at >= fields.len() {
        None
    } else if fields[at].name == name {
        Some(fields[at].typ)
    } else {
        field_type(fields, name, at + 1)
    }
}

pub fn find_field(fields: &[StructField], name: SymbolId) -> (typ: Option<Type>)
    ensures
        typ == field_type(fields@, name, 0),
{
    let mut i: usize = 0;
    while i < fields.len()
        invariant
            i <= fields@.len(),
            field_type(fields@, name, 0) == field_type(fields@, name, i as int),
        decreases fields@.len() - i,
    {
        if fields[i].name == name {
            return Some(fields[i].typ);
        }
        i += 1;
    }
    None
}

/// The position of the named variant, from position `at` on.
pub open spec fn variant_position(
    variants: Seq<EnumVariant>,
    name: SymbolId,
    at: int,
) -> Option<usize>
    decreases variants.len() - at,
{
    if at < 0 || at >= variants.len() {
        None
    } else if variants[at].name == name {
        Some(at as usize)
    } else {
        variant_position(variants, name, at + 1)
    }
}

pub fn find_variant(variants: &[EnumVariant], name: SymbolId) -> (position: Option<usize>)
    ensures
        position == variant_position(variants@, name, 0),
        position matches Some(index) ==> index < variants@.len(),
{
    let mut i: usize = 0;
    while i < variants.len()
        invariant
            i <= variants@.len(),
            variant_position(variants@, name, 0) == variant_position(variants@, name, i as int),
        decreases variants@.len() - i,
    {
        if variants[i].name == name {
            return Some(i);
        }
        i += 1;
    }
    None
}

/// Binds a parameter that is a generic parameter, or a reference to one, to what it is given.
pub open spec fn bind_generic(param: Type, actual: Type, bindings: Seq<Option<Type>>) -> Seq<
    Option<Type>,
> {
    let binding = match param.kind() {
        TypeKind::GenericParam(index) => Some((index as int, actual)),
        TypeKind::Ref { mutable, to } => match Type::from_target(to).kind() {
            TypeKind::GenericParam(index) => Some((index as int, actual.strip_reference())),
            _ => None,
        },
        _ => None,
    };
    match binding {
        Some((index, value)) => if index < bindings.len() && bindings[index] is None {
            bindings.update(index, Some(value))
        } else {
            bindings
        },
        None => bindings,
    }
}

fn unify_generic(param: Type, actual: Type, bindings: &mut Vec<Option<Type>>)
    ensures
        final(bindings)@ == bind_generic(param, actual, old(bindings)@),
{
    let binding = match param.kind() {
        TypeKind::GenericParam(index) => Some((index as usize, actual)),
        TypeKind::Ref { to, .. } => match Type::from_target(to).kind() {
            TypeKind::GenericParam(index) => Some((index as usize, actual.strip_reference())),
            _ => None,
        },
        _ => None,
    };
    if let Some((index, value)) = binding {
        if index < bindings.len() && bindings[index].is_none() {
            bindings.set(index, Some(value));
        }
    }
}

/// The bindings after matching parameters with arguments from position `at` on.
pub open spec fn bind_generics(
    params: Seq<Type>,
    actual: Seq<Type>,
    bindings: Seq<Option<Type>>,
    at: int,
) -> Seq<Option<Type>>
    decreases params.len() - at,
{
    if at < 0 || at >= params.len() || at >= actual.len() {
        bindings
    } else {
        bind_generics(params, actual, bind_generic(params[at], actual[at], bindings), at + 1)
    }
}

/// Bindings with the unit type for what is not bound.
pub open spec fn bound_or_unit(bindings: Seq<Option<Type>>) -> Seq<Type> {
    Seq::new(
        bindings.len(),
        |i: int|
            match bindings[i] {
                Some(typ) => typ,
                None => Type::new(TypeKind::Unit),
            },
    )
}

/// The generic arguments of a call inferred from its arguments.
pub open spec fn inferred_args(params: Seq<Type>, actual: Seq<Type>, count: nat) -> Seq<Type> {
    bound_or_unit(bind_generics(params, actual, Seq::new(count, |i: int| None), 0))
}

pub fn infer_type_args(params: &[Type], actual: &Vec<Type>, count: usize) -> (args: Vec<Type>)
    ensures
        args@ == inferred_args(params@, actual@, count as nat),
{
    let mut bindings: Vec<Option<Type>> = Vec::new();
    let mut i: usize = 0;
    while i < count
        invariant
            i <= count,
            bindings@ =~= Seq::new(i as nat, |i: int| None::<Type>),
        decreases count - i,
    {
        bindings.push(None);
        i += 1;
    }
    let ghost start = bindings@;
    let mut i: usize = 0;
    while i < params.len() && i < actual.len()
        invariant
            i <= params@.len(),
            i <= actual@.len(),
            bind_generics(params@, actual@, start, 0) == bind_generics(
                params@,
                actual@,
                bindings@,
                i as int,
            ),
        decreases params@.len() - i,
    {
        unify_generic(params[i], actual[i], &mut bindings);
        i += 1;
    }
    let mut args: Vec<Type> = Vec::new();
    let mut i: usize = 0;
    while i < bindings.len()
        invariant
            i <= bindings@.len(),
            args@ =~= bound_or_unit(bindings@).take(i as int),
        decreases bindings@.len() - i,
    {
        args.push(
            match bindings[i] {
                Some(typ) => typ,
                None => Type::new(TypeKind::Unit),
            },
        );
        i += 1;
    }
    assert(args@ =~= bound_or_unit(bindings@));
    args
}

/// What the operand of a unary operator is expected to be.
pub open spec fn operand_hint(operator: UnaryOperator, hint: Option<Type>) -> Option<Type> {
    match (operator, hint) {
        (_, None) => None,
        (UnaryOperator::Neg, _) => hint,
        (UnaryOperator::Not, _) => hint,
        (UnaryOperator::Deref, Some(typ)) => {
            let to = match typ.kind() {
                TypeKind::Ref { mutable, to } => to,
                TypeKind::Struct(id) => RefTarget::new(RefTargetKind::Struct(id)),
                _ => RefTarget::new(RefTargetKind::Char),
            };
            Some(Type::refer(to, false))
        },
        (_, Some(typ)) => Some(typ.strip_reference()),
    }
}

pub fn hint_for_operand(operator: UnaryOperator, hint: Option<Type>) -> (operand: Option<Type>)
    ensures
        operand == operand_hint(operator, hint),
{
    let typ = match hint {
        None => return None,
        Some(typ) => typ,
    };
    match operator {
        UnaryOperator::Neg | UnaryOperator::Not => hint,
        UnaryOperator::Deref => {
            let to = match typ.kind() {
                TypeKind::Ref { to, .. } => to,
                TypeKind::Struct(id) => RefTarget::new(RefTargetKind::Struct(id)),
                _ => RefTarget::new(RefTargetKind::Char),
            };
            Some(Type::refer(to, false))
        },
        UnaryOperator::Ref | UnaryOperator::RefMut => Some(typ.strip_reference()),
    }
}

impl<'hir> Body<'hir> {
    pub open spec fn node_type(self, id: ExprId) -> Type {
        if id.0 < self.nodes.len() {
            self.nodes[id.0 as int].typ
        } else {
            Type::new(TypeKind::Error)
        }
    }

    /// A name on its own: a local, a constant of the body, or a constant of an item.
    pub open spec fn lower_identifier(self, name: Seq<char>, span: Span) -> (
        Body<'hir>,
        Outcome<LoweredTree<'hir>>,
    ) {
        let bound = match self.names.get_id(name) {
            Some(symbol) => last_binding(self.bindings, symbol),
            None => None,
        };
        match bound {
            Some(BoundTree::Local(id)) => if self.in_const {
                fail(self, HirErrorKind::NonConstValue { name }, span)
            } else {
                fine(self.expr(KindTree::Local(id), self.local_type(id), span))
            },
            Some(BoundTree::Constant(constant)) => fine(self.const_expr(constant, span)),
            None => match self.constant(name) {
                Some(constant) => fine(self.const_expr(constant, span)),
                None => fail(self, HirErrorKind::UndeclaredIdentifier { name }, span),
            },
        }
    }

    /// `Qualifier::name`: a variant without payload or a constant of a type.
    pub open spec fn lower_qualified_name(self, expr: ast::QualifiedName<'hir>) -> (
        Body<'hir>,
        Outcome<LoweredTree<'hir>>,
    ) {
        let (body, owner) = self.insert(expr.qualifier@);
        let (body, member) = body.insert(expr.name@);
        match lookup(body.names.enum_variants, nested_key(owner, member)) {
            Some((id, value)) => fine(
                body.expr(
                    KindTree::Literal(Literal::Int(value)),
                    Type::enumerable(id),
                    expr.span,
                ),
            ),
            None => match body.constant_named(body.names.scoped_item(expr.qualifier@, expr.name@)) {
                Some(constant) => fine(body.const_expr(constant, expr.span)),
                None => fail(
                    body,
                    HirErrorKind::UndeclaredIdentifier {
                        name: join(expr.qualifier@, expr.name@),
                    },
                    expr.span,
                ),
            },
        }
    }

    /// The type of a binary operation that is not overloaded.
    pub open spec fn type_for_binary(
        self,
        operator: BinaryOperator,
        left: Type,
        right: Type,
        span: Span,
    ) -> (Body<'hir>, Outcome<Type>) {
        let number = Type::new(TypeKind::I32);
        let boolean = Type::new(TypeKind::Bool);
        match operator {
            BinaryOperator::Add | BinaryOperator::Sub | BinaryOperator::Mul
            | BinaryOperator::Div => match self.assert_type(left, right, span) {
                (body, Err(error)) => (body, Err(error)),
                (body, Ok(_)) => {
                    let left = body.infer.resolve_shallow(left);
                    if left.is_number() || left.is_infer() {
                        (body, Ok(left))
                    } else {
                        (body, Err(mismatch(number, left, span)))
                    }
                },
            },
            BinaryOperator::Eq | BinaryOperator::Ne => match self.assert_type(left, right, span) {
                (body, Err(error)) => (body, Err(error)),
                (body, Ok(_)) => (body, Ok(boolean)),
            },
            BinaryOperator::Lt | BinaryOperator::LtEq | BinaryOperator::Gt
            | BinaryOperator::GtEq => match self.assert_type(left, right, span) {
                (body, Err(error)) => (body, Err(error)),
                (body, Ok(_)) => {
                    let left = body.infer.resolve_shallow(left);
                    if left.is_number() || left.is_infer() || left == Type::new(TypeKind::Char) {
                        (body, Ok(boolean))
                    } else {
                        (body, Err(mismatch(number, left, span)))
                    }
                },
            },
            BinaryOperator::And | BinaryOperator::Or => match self.assert_type(boolean, left, span) {
                (body, Err(error)) => (body, Err(error)),
                (body, Ok(_)) => match body.assert_type(boolean, right, span) {
                    (body, Err(error)) => (body, Err(error)),
                    (body, Ok(_)) => (body, Ok(boolean)),
                },
            },
            BinaryOperator::BitAnd | BinaryOperator::BitOr
            | BinaryOperator::BitXor => match self.assert_type(left, right, span) {
                (body, Err(error)) => (body, Err(error)),
                (body, Ok(_)) => {
                    let left = body.infer.resolve_shallow(left);
                    if left == boolean || left.is_integer() || left.is_infer() {
                        (body, Ok(left))
                    } else {
                        (body, Err(mismatch(number, left, span)))
                    }
                },
            },
            BinaryOperator::Shl | BinaryOperator::Shr => {
                let left = self.infer.resolve_shallow(left);
                let right = self.infer.resolve_shallow(right);
                if !left.is_integer() && !left.is_infer() {
                    (self, Err(mismatch(number, left, span)))
                } else if !right.is_integer() && !right.is_infer() {
                    (self, Err(mismatch(number, right, span)))
                } else {
                    (self, Ok(left))
                }
            },
        }
    }

    /// What the right operand is expected to be once the left one is known.
    pub open spec fn right_hint(self, operator: BinaryOperator, left: Type) -> Option<Type> {
        match operator {
            BinaryOperator::And | BinaryOperator::Or => Some(Type::new(TypeKind::Bool)),
            BinaryOperator::Shl | BinaryOperator::Shr => None,
            _ => Some(self.infer.resolve_shallow(left)),
        }
    }

    /// The struct a field access looks into.
    pub open spec fn lookup_field(self, current: Type, name: Seq<char>, span: Span) -> (
        Body<'hir>,
        Outcome<(SymbolId, Type)>,
    ) {
        match current.strip_reference().kind() {
            TypeKind::Struct(id) => {
                let (body, symbol) = self.insert(name);
                match body.names.structure(id) {
                    Some(definition) => match field_type(definition.fields@, symbol, 0) {
                        Some(typ) => (body, Ok((symbol, typ))),
                        None => fail(
                            body,
                            HirErrorKind::UnknownField {
                                struct_name: body.names.name(definition.name),
                                field: name,
                            },
                            span,
                        ),
                    },
                    None => (body, Err(mismatch(Type::structure(StructId(0)), current, span))),
                }
            },
            _ => (self, Err(mismatch(Type::structure(StructId(0)), current, span))),
        }
    }

    /// The result type of a unary operation on an operand.
    pub open spec fn type_for_unary(
        self,
        operator: UnaryOperator,
        operand: LoweredTree<'hir>,
        hint: Option<Type>,
    ) -> (Body<'hir>, Outcome<Type>) {
        let typ = operand.typ;
        match operator {
            UnaryOperator::Neg => (
                self,
                if typ.is_number() {
                    Ok(typ)
                } else {
                    Err(mismatch(Type::new(TypeKind::I32), typ, operand.span))
                },
            ),
            UnaryOperator::Not => (
                self,
                if typ == Type::new(TypeKind::Bool) || typ.is_integer() {
                    Ok(typ)
                } else {
                    Err(mismatch(Type::new(TypeKind::Bool), typ, operand.span))
                },
            ),
            UnaryOperator::Deref => (
                self,
                match typ.kind() {
                    TypeKind::Ref { mutable, to } => Ok(Type::from_target(to)),
                    _ => Err(
                        mismatch(
                            Type::refer(RefTarget::new(RefTargetKind::Char), false),
                            typ,
                            operand.span,
                        ),
                    ),
                },
            ),
            UnaryOperator::Ref | UnaryOperator::RefMut => {
                let (body, slice) = self.coerce_array_to_slice(typ, hint);
                (
                    body,
                    match slice {
                        Some(slice) => Ok(slice),
                        None => match ref_target_spec(typ, operand.span) {
                            Ok(to) => Ok(Type::refer(to, operator is RefMut)),
                            Err(error) => Err(error),
                        },
                    },
                )
            },
        }
    }

    /// Whether a place may be assigned to.
    pub open spec fn check_assignable(
        self,
        target: LoweredTree<'hir>,
        target_span: Span,
        span: Span,
    ) -> Outcome<()> {
        let through_slice = match target.expr.kind {
            KindTree::Index { base, index } => match self.node_type(base.id).kind() {
                TypeKind::Slice { mutable, element } => Some(mutable),
                _ => None,
            },
            _ => None,
        };
        match through_slice {
            Some(true) => Ok(()),
            Some(false) => Err(HirError::new(HirErrorKind::AssignBehindSharedRef, target_span)),
            None => match place_base_local_spec(target.expr) {
                None => Err(HirError::new(HirErrorKind::InvalidAssignmentTarget, span)),
                Some(local) => if self.local_mutable(local) {
                    Ok(())
                } else {
                    Err(
                        HirError::new(
                            HirErrorKind::ImmutableBind { name: self.local_name(local) },
                            match target.expr.kind {
                                KindTree::Field { .. } => target_span,
                                KindTree::Index { .. } => target_span,
                                _ => span,
                            },
                        ),
                    )
                },
            },
        }
    }

    /// The struct a literal is of.
    pub open spec fn literal_struct(self, expr: ast::StructLiteral<'hir>) -> (
        Body<'hir>,
        Outcome<StructId>,
    ) {
        let unknown = HirError::new(HirErrorKind::UnknownType { name: expr.name@ }, expr.span);
        if expr.type_args@.len() > 0 {
            match self.resolve_types(expr.type_args@) {
                (body, Err(error)) => (body, Err(error)),
                (body, Ok(args)) => {
                    let (body, symbol) = body.insert(expr.name@);
                    let checked = match lookup(body.names.generic_structs, symbol.0) {
                        Some(template) => body.names.check_bounds(
                            template.generics@,
                            args,
                            Some(body.generics@),
                            expr.span,
                            0,
                        ),
                        None => Ok(()),
                    };
                    match checked {
                        Err(error) => (body, Err(error)),
                        Ok(_) => {
                            let (names, outcome) = body.names.instantiate_generic(
                                expr.name@,
                                args,
                                expr.span,
                                MAX_DEPTH as nat,
                            );
                            (
                                body.with_names(names),
                                match outcome {
                                    Err(error) => Err(error),
                                    Ok(typ) => match typ.kind() {
                                        TypeKind::Struct(id) => Ok(id),
                                        _ => Err(unknown),
                                    },
                                },
                            )
                        },
                    }
                },
            }
        } else {
            let (body, symbol) = self.insert(expr.name@);
            (
                body,
                match lookup(body.names.struct_map, symbol.0) {
                    Some(id) => Ok(id),
                    None => Err(unknown),
                },
            )
        }
    }

    /// The enum behind the qualifier of a variant, if it is one.
    pub open spec fn resolve_enum_id(
        self,
        expr: ast::QualifiedCall<'hir>,
        symbol: SymbolId,
        hint: Option<Type>,
    ) -> (Body<'hir>, Outcome<Option<EnumId>>) {
        let hinted = match hint {
            Some(typ) => match typ.kind() {
                TypeKind::Enum(id) => Some(id),
                _ => None,
            },
            None => None,
        };
        match lookup(self.names.enum_map, symbol.0) {
            Some(id) => (self, Ok(Some(id))),
            None => match lookup(self.names.generic_enums, symbol.0) {
                Some(template) => if expr.type_args@.len() > 0 {
                    match self.resolve_types(expr.type_args@) {
                        (body, Err(error)) => (body, Err(error)),
                        (body, Ok(args)) => match body.names.check_bounds(
                            template.generics@,
                            args,
                            Some(body.generics@),
                            expr.span,
                            0,
                        ) {
                            Err(error) => (body, Err(error)),
                            Ok(_) => {
                                let (names, outcome) = body.names.instantiate_generic(
                                    expr.qualifier@,
                                    args,
                                    expr.span,
                                    MAX_DEPTH as nat,
                                );
                                (
                                    body.with_names(names),
                                    match outcome {
                                        Err(error) => Err(error),
                                        Ok(typ) => match typ.kind() {
                                            TypeKind::Enum(id) => Ok(Some(id)),
                                            _ => Ok(hinted),
                                        },
                                    },
                                )
                            },
                        },
                    }
                } else {
                    (self, Ok(hinted))
                },
                None => (self, Ok(hinted)),
            },
        }
    }

    /// The type a method is looked up on: arrays and slices share the methods of slices.
    pub open spec fn method_owner(self, receiver: Type, span: Span) -> (Body<'hir>, Outcome<Type>) {
        match receiver.kind() {
            TypeKind::Slice { mutable, element } => {
                let (names, outcome) = self.names.specialize_slice_impls(
                    receiver,
                    MAX_DEPTH as nat,
                );
                (
                    self.with_names(names),
                    match outcome {
                        Err(error) => Err(error),
                        Ok(_) => Ok(Type::slice(element, false)),
                    },
                )
            },
            TypeKind::Array(id) => {
                let element = match self.names.arrays.find(id) {
                    Some(array) => array.element,
                    None => Type::new(TypeKind::Error),
                };
                match ref_target_spec(self.infer.resolve_or_default(element), span) {
                    Err(error) => (self, Err(error)),
                    Ok(element) => {
                        let slice = Type::slice(element, false);
                        let (names, outcome) = self.names.specialize_slice_impls(
                            slice,
                            MAX_DEPTH as nat,
                        );
                        (
                            self.with_names(names),
                            match outcome {
                                Err(error) => Err(error),
                                Ok(_) => Ok(slice),
                            },
                        )
                    },
                }
            },
            _ => (self, Ok(receiver)),
        }
    }

    /// The receiver of an intrinsic, turned into a slice if it is an array.
    pub open spec fn coerce_method_receiver(
        self,
        receiver: LoweredTree<'hir>,
        owner: Type,
    ) -> (Body<'hir>, ExprTree<'hir>) {
        match (receiver.typ.kind(), owner.kind()) {
            (TypeKind::Array(id), TypeKind::Slice { mutable, element }) => {
                let array_element = match self.names.arrays.find(id) {
                    Some(array) => self.infer.resolve_shallow(array.element),
                    None => Type::new(TypeKind::Error),
                };
                if !array_element.is_infer() && array_element != Type::from_target(element) {
                    (self, receiver.expr)
                } else {
                    let (body, lowered) = self.expr(
                        KindTree::Unary {
                            operator: UnaryOperator::Ref,
                            expr: Box::new(receiver.expr),
                        },
                        owner,
                        receiver.span,
                    );
                    (body, lowered.expr)
                }
            },
            _ => (self, receiver.expr),
        }
    }

    /// A question about a type.
    pub open spec fn lower_type_intrinsic(self, expr: ast::TypeIntrinsic<'hir>) -> (
        Body<'hir>,
        Outcome<LoweredTree<'hir>>,
    ) {
        let qualifier = match expr.qualifier {
            Some(qualifier) => Some(qualifier@),
            None => None,
        };
        if self.names.resolve_function_call(qualifier, expr.kind.name()@) is None {
            fail(
                self,
                HirErrorKind::UnknownFunction {
                    name: match expr.qualifier {
                        Some(qualifier) => join(qualifier@, expr.kind.name()@),
                        None => expr.kind.name()@,
                    },
                },
                expr.span,
            )
        } else {
            let (names, outcome) = self.names.resolve_type(
                expr.typ.value,
                expr.typ.span,
                ResolveCtx::root_spec(),
                MAX_DEPTH as nat,
            );
            let body = self.with_names(names);
            match outcome {
                Err(error) => (body, Err(error)),
                Ok(typ) => fine(
                    body.expr(
                        KindTree::TypeIntrinsic { kind: expr.kind, typ },
                        Type::new(TypeKind::Uptr),
                        expr.span,
                    ),
                ),
            }
        }
    }

    /// A call whose arguments are lowered, together with its callee.
    pub open spec fn call_expr(
        self,
        callee: SymbolId,
        args: Seq<ExprTree<'hir>>,
        typ: Type,
        def: Res,
        generic_args: Option<&'hir [Type]>,
        span: Span,
    ) -> (Body<'hir>, LoweredTree<'hir>) {
        let (body, callee) = self.callee_expr(callee, span);
        body.call_of(callee.expr, args, typ, def, generic_args, span)
    }

    /// The callee of a call, which has no type of its own.
    pub open spec fn callee_expr(self, callee: SymbolId, span: Span) -> (
        Body<'hir>,
        LoweredTree<'hir>,
    ) {
        self.expr(KindTree::Path(callee), Type::new(TypeKind::Unit), span)
    }

    /// A call whose callee and arguments are lowered.
    pub open spec fn call_of(
        self,
        callee: ExprTree<'hir>,
        args: Seq<ExprTree<'hir>>,
        typ: Type,
        def: Res,
        generic_args: Option<&'hir [Type]>,
        span: Span,
    ) -> (Body<'hir>, LoweredTree<'hir>) {
        self.alloc_node(
            KindTree::Call { callee: Box::new(callee), args },
            Node { typ, def: Some(def), args: generic_args, const_use: None },
            span,
        )
    }
}

impl<'hir> FunctionBuilder<'hir> {
    fn node_type(&self, id: ExprId) -> (typ: Type)
        ensures
            typ == self@.node_type(id),
    {
        let index: usize = id.0 as usize;
        if index < self.nodes.len() {
            self.nodes[index].typ
        } else {
            Type::new(TypeKind::Error)
        }
    }

    pub fn lower_identifier(&mut self, name: &'hir str, span: Span) -> (outcome: Result<
        Lowered<'hir>,
        HirError<&'hir str>,
    >)
        requires
            old(self).wf(),
        ensures
            final(self).wf(),
            (final(self)@, seen_expr(outcome)) == old(self)@.lower_identifier(name@, span),
    {
        let bound = match self.scope.symbols.get_id(name) {
            Some(symbol) => self.binding(symbol),
            None => None,
        };
        match bound {
            Some(Bound::Local(id)) => {
                if self.in_const {
                    return Err(HirError::new(HirErrorKind::NonConstValue { name }, span));
                }
                let typ = self.local_type(id);
                Ok(self.expr(ExpressionKind::Local(id), typ, span))
            },
            Some(Bound::Constant(constant)) => Ok(self.const_expr(constant, span)),
            None => match self.constant(name) {
                Some(constant) => Ok(self.const_expr(constant, span)),
                None => Err(HirError::new(HirErrorKind::UndeclaredIdentifier { name }, span)),
            },
        }
    }

    pub fn lower_qualified_name(&mut self, expr: &ast::QualifiedName<'hir>) -> (outcome: Result<
        Lowered<'hir>,
        HirError<&'hir str>,
    >)
        requires
            old(self).wf(),
        ensures
            final(self).wf(),
            (final(self)@, seen_expr(outcome)) == old(self)@.lower_qualified_name(*expr),
    {
        let owner = self.insert(expr.qualifier);
        let member = self.insert(expr.name);
        if let Some((id, value)) = get_pair(&self.scope.enum_variants, nested_key(owner, member)) {
            return Ok(
                self.expr(
                    ExpressionKind::Literal(Literal::Int(value)),
                    Type::enumerable(id),
                    expr.span,
                ),
            );
        }
        let mangled = self.scope.mangler.scoped_item(expr.qualifier, expr.name);
        match self.constant_named(mangled.as_str()) {
            Some(constant) => Ok(self.const_expr(constant, expr.span)),
            None => {
                let name = qualified(self.scope.arena, expr.qualifier, expr.name);
                Err(HirError::new(HirErrorKind::UndeclaredIdentifier { name }, expr.span))
            },
        }
    }

    pub fn type_for_binary(
        &mut self,
        operator: BinaryOperator,
        left: Type,
        right: Type,
        span: Span,
    ) -> (outcome: Result<Type, HirError<&'hir str>>)
        requires
            old(self).wf(),
        ensures
            final(self).wf(),
            (final(self)@, seen(outcome)) == old(self)@.type_for_binary(
                operator,
                left,
                right,
                span,
            ),
    {
        let number = Type::new(TypeKind::I32);
        let boolean = Type::new(TypeKind::Bool);
        match operator {
            BinaryOperator::Add | BinaryOperator::Sub | BinaryOperator::Mul
            | BinaryOperator::Div => {
                if let Err(error) = self.assert_type(left, right, span) {
                    return Err(error);
                }
                let left = self.infer.resolve_shallow(left);
                if left.is_number() || left.is_infer() {
                    Ok(left)
                } else {
                    Err(mismatch_error(number, left, span))
                }
            },
            BinaryOperator::Eq | BinaryOperator::Ne => {
                if let Err(error) = self.assert_type(left, right, span) {
                    return Err(error);
                }
                Ok(boolean)
            },
            BinaryOperator::Lt | BinaryOperator::LtEq | BinaryOperator::Gt
            | BinaryOperator::GtEq => {
                if let Err(error) = self.assert_type(left, right, span) {
                    return Err(error);
                }
                let left = self.infer.resolve_shallow(left);
                if left.is_number() || left.is_infer() || left == Type::new(TypeKind::Char) {
                    Ok(boolean)
                } else {
                    Err(mismatch_error(number, left, span))
                }
            },
            BinaryOperator::And | BinaryOperator::Or => {
                if let Err(error) = self.assert_type(boolean, left, span) {
                    return Err(error);
                }
                if let Err(error) = self.assert_type(boolean, right, span) {
                    return Err(error);
                }
                Ok(boolean)
            },
            BinaryOperator::BitAnd | BinaryOperator::BitOr | BinaryOperator::BitXor => {
                if let Err(error) = self.assert_type(left, right, span) {
                    return Err(error);
                }
                let left = self.infer.resolve_shallow(left);
                if left == boolean || left.is_integer() || left.is_infer() {
                    Ok(left)
                } else {
                    Err(mismatch_error(number, left, span))
                }
            },
            BinaryOperator::Shl | BinaryOperator::Shr => {
                let left = self.infer.resolve_shallow(left);
                let right = self.infer.resolve_shallow(right);
                if !left.is_integer() && !left.is_infer() {
                    Err(mismatch_error(number, left, span))
                } else if !right.is_integer() && !right.is_infer() {
                    Err(mismatch_error(number, right, span))
                } else {
                    Ok(left)
                }
            },
        }
    }

    pub fn right_hint(&mut self, operator: BinaryOperator, left: Type) -> (hint: Option<Type>)
        requires
            old(self).wf(),
        ensures
            final(self).wf(),
            final(self)@ == old(self)@,
            hint == old(self)@.right_hint(operator, left),
    {
        match operator {
            BinaryOperator::And | BinaryOperator::Or => Some(Type::new(TypeKind::Bool)),
            BinaryOperator::Shl | BinaryOperator::Shr => None,
            _ => Some(self.infer.resolve_shallow(left)),
        }
    }

    pub fn lookup_field(&mut self, current: Type, name: &'hir str, span: Span) -> (outcome: Result<
        (SymbolId, Type),
        HirError<&'hir str>,
    >)
        requires
            old(self).wf(),
        ensures
            final(self).wf(),
            (final(self)@, seen(outcome)) == old(self)@.lookup_field(current, name@, span),
    {
        match current.strip_reference().kind() {
            TypeKind::Struct(id) => {
                let symbol = self.insert(name);
                match self.scope.structure(id) {
                    Some(definition) => match find_field(definition.fields, symbol) {
                        Some(typ) => Ok((symbol, typ)),
                        None => {
                            let struct_name = self.scope.arena.place_str(
                                self.scope.symbols.name(definition.name),
                            );
                            Err(
                                HirError::new(
                                    HirErrorKind::UnknownField { struct_name, field: name },
                                    span,
                                ),
                            )
                        },
                    },
                    None => Err(mismatch_error(Type::structure(StructId(0)), current, span)),
                }
            },
            _ => Err(mismatch_error(Type::structure(StructId(0)), current, span)),
        }
    }

    pub fn type_for_unary(
        &mut self,
        operator: UnaryOperator,
        operand: Lowered<'hir>,
        hint: Option<Type>,
    ) -> (outcome: Result<Type, HirError<&'hir str>>)
        requires
            old(self).wf(),
        ensures
            final(self).wf(),
            (final(self)@, seen(outcome)) == old(self)@.type_for_unary(operator, operand@, hint),
    {
        let typ = operand.typ;
        match operator {
            UnaryOperator::Neg => if typ.is_number() {
                Ok(typ)
            } else {
                Err(mismatch_error(Type::new(TypeKind::I32), typ, operand.span))
            },
            UnaryOperator::Not => if typ == Type::new(TypeKind::Bool) || typ.is_integer() {
                Ok(typ)
            } else {
                Err(mismatch_error(Type::new(TypeKind::Bool), typ, operand.span))
            },
            UnaryOperator::Deref => match typ.kind() {
                TypeKind::Ref { to, .. } => Ok(Type::from_target(to)),
                _ => Err(
                    mismatch_error(
                        Type::refer(RefTarget::new(RefTargetKind::Char), false),
                        typ,
                        operand.span,
                    ),
                ),
            },
            UnaryOperator::Ref | UnaryOperator::RefMut => match self.coerce_array_to_slice(
                typ,
                hint,
            ) {
                Some(slice) => Ok(slice),
                None => match ref_target(typ, operand.span) {
                    Ok(to) => Ok(Type::refer(to, operator == UnaryOperator::RefMut)),
                    Err(error) => Err(error),
                },
            },
        }
    }

    pub fn check_assignable(&self, target: Lowered<'hir>, target_span: Span, span: Span) -> (outcome:
        Result<(), HirError<&'hir str>>)
        ensures
            seen(outcome) == self@.check_assignable(target@, target_span, span),
    {
        let through_slice = match target.expr.kind {
            ExpressionKind::Index { base, .. } => {
                assert(expr_tree(*base).id == base.id);
                match self.node_type(base.id).kind() {
                    TypeKind::Slice { mutable, .. } => Some(mutable),
                    _ => None,
                }
            },
            _ => None,
        };
        match through_slice {
            Some(true) => Ok(()),
            Some(false) => Err(HirError::new(HirErrorKind::AssignBehindSharedRef, target_span)),
            None => match place_base_local(target.expr) {
                None => Err(HirError::new(HirErrorKind::InvalidAssignmentTarget, span)),
                Some(local) => {
                    if self.local_mutable(local) {
                        return Ok(());
                    }
                    let at = match target.expr.kind {
                        ExpressionKind::Field { .. } => target_span,
                        ExpressionKind::Index { .. } => target_span,
                        _ => span,
                    };
                    let name = self.local_name(local);
                    Err(HirError::new(HirErrorKind::ImmutableBind { name }, at))
                },
            },
        }
    }

    pub fn literal_struct(&mut self, expr: &ast::StructLiteral<'hir>) -> (outcome: Result<
        StructId,
        HirError<&'hir str>,
    >)
        requires
            old(self).wf(),
        ensures
            final(self).wf(),
            (final(self)@, seen(outcome)) == old(self)@.literal_struct(*expr),
    {
        let unknown = HirError::new(HirErrorKind::UnknownType { name: expr.name }, expr.span);
        if expr.type_args.len() > 0 {
            let args = match self.resolve_types(expr.type_args) {
                Err(error) => return Err(error),
                Ok(args) => args,
            };
            let symbol = self.insert(expr.name);
            if let Some(template) = get(&self.scope.generic_structs, symbol) {
                if let Err(error) = self.scope.check_bounds(
                    template.generics,
                    args.as_slice(),
                    Some(self.generics),
                    expr.span,
                ) {
                    return Err(error);
                }
            }
            match self.scope.instantiate_generic(expr.name, args.as_slice(), expr.span, MAX_DEPTH) {
                Err(error) => Err(error),
                Ok(typ) => match typ.kind() {
                    TypeKind::Struct(id) => Ok(id),
                    _ => Err(unknown),
                },
            }
        } else {
            let symbol = self.insert(expr.name);
            match get(&self.scope.struct_map, symbol) {
                Some(id) => Ok(id),
                None => Err(unknown),
            }
        }
    }

    pub fn resolve_enum_id(
        &mut self,
        expr: &ast::QualifiedCall<'hir>,
        symbol: SymbolId,
        hint: Option<Type>,
    ) -> (outcome: Result<Option<EnumId>, HirError<&'hir str>>)
        requires
            old(self).wf(),
        ensures
            final(self).wf(),
            (final(self)@, seen(outcome)) == old(self)@.resolve_enum_id(*expr, symbol, hint),
    {
        let hinted = match hint {
            Some(typ) => match typ.kind() {
                TypeKind::Enum(id) => Some(id),
                _ => None,
            },
            None => None,
        };
        if let Some(id) = get(&self.scope.enum_map, symbol) {
            return Ok(Some(id));
        }
        let template = match get(&self.scope.generic_enums, symbol) {
            Some(template) => template,
            None => return Ok(hinted),
        };
        if expr.type_args.len() == 0 {
            return Ok(hinted);
        }
        let args = match self.resolve_types(expr.type_args) {
            Err(error) => return Err(error),
            Ok(args) => args,
        };
        if let Err(error) = self.scope.check_bounds(
            template.generics,
            args.as_slice(),
            Some(self.generics),
            expr.span,
        ) {
            return Err(error);
        }
        match self.scope.instantiate_generic(
            expr.qualifier,
            args.as_slice(),
            expr.span,
            MAX_DEPTH,
        ) {
            Err(error) => Err(error),
            Ok(typ) => match typ.kind() {
                TypeKind::Enum(id) => Ok(Some(id)),
                _ => Ok(hinted),
            },
        }
    }

    pub fn method_owner(&mut self, receiver: Type, span: Span) -> (outcome: Result<
        Type,
        HirError<&'hir str>,
    >)
        requires
            old(self).wf(),
        ensures
            final(self).wf(),
            (final(self)@, seen(outcome)) == old(self)@.method_owner(receiver, span),
    {
        match receiver.kind() {
            TypeKind::Slice { element, .. } => match self.scope.specialize_slice_impls(
                receiver,
                MAX_DEPTH,
            ) {
                Err(error) => Err(error),
                Ok(_) => Ok(Type::slice(element, false)),
            },
            TypeKind::Array(id) => {
                let element = match self.scope.arrays.find(id) {
                    Some(array) => array.element,
                    None => Type::new(TypeKind::Error),
                };
                let resolved = self.infer.resolve_or_default(element);
                match ref_target(resolved, span) {
                    Err(error) => Err(error),
                    Ok(element) => {
                        let slice = Type::slice(element, false);
                        match self.scope.specialize_slice_impls(slice, MAX_DEPTH) {
                            Err(error) => Err(error),
                            Ok(_) => Ok(slice),
                        }
                    },
                }
            },
            _ => Ok(receiver),
        }
    }

    pub fn coerce_method_receiver(&mut self, receiver: Lowered<'hir>, owner: Type) -> (expr:
        &'hir Expression<'hir>)
        requires
            old(self).wf(),
        ensures
            final(self).wf(),
            (final(self)@, expr_tree(*expr)) == old(self)@.coerce_method_receiver(receiver@, owner),
    {
        match (receiver.typ.kind(), owner.kind()) {
            (TypeKind::Array(id), TypeKind::Slice { element, .. }) => {
                let array_element = match self.scope.arrays.find(id) {
                    Some(array) => self.infer.resolve_shallow(array.element),
                    None => Type::new(TypeKind::Error),
                };
                if !array_element.is_infer() && array_element != Type::from_target(element) {
                    receiver.expr
                } else {
                    self.expr(
                        ExpressionKind::Unary { operator: UnaryOperator::Ref, expr: receiver.expr },
                        owner,
                        receiver.span,
                    ).expr
                }
            },
            _ => receiver.expr,
        }
    }

    pub fn lower_type_intrinsic(&mut self, expr: &ast::TypeIntrinsic<'hir>) -> (outcome: Result<
        Lowered<'hir>,
        HirError<&'hir str>,
    >)
        requires
            old(self).wf(),
        ensures
            final(self).wf(),
            (final(self)@, seen_expr(outcome)) == old(self)@.lower_type_intrinsic(*expr),
    {
        let name: &'static str = expr.kind.name();
        if self.scope.resolve_function_call(expr.qualifier, name).is_none() {
            let name: &'hir str = match expr.qualifier {
                Some(qualifier) => qualified(self.scope.arena, qualifier, name),
                None => name,
            };
            return Err(HirError::new(HirErrorKind::UnknownFunction { name }, expr.span));
        }
        let ctx = ResolveCtx::root(self.scope.arena);
        match self.scope.resolve_type(&expr.typ.value, expr.typ.span, ctx, MAX_DEPTH) {
            Err(error) => Err(error),
            Ok(typ) => Ok(
                self.expr(
                    ExpressionKind::TypeIntrinsic { kind: expr.kind, typ },
                    Type::new(TypeKind::Uptr),
                    expr.span,
                ),
            ),
        }
    }

    pub fn call_expr(
        &mut self,
        callee: SymbolId,
        args: Vec<&'hir Expression<'hir>>,
        typ: Type,
        def: Res,
        generic_args: Option<&'hir [Type]>,
        span: Span,
    ) -> (lowered: Lowered<'hir>)
        requires
            old(self).wf(),
        ensures
            final(self).wf(),
            (final(self)@, lowered@) == old(self)@.call_expr(
                callee,
                expr_trees(args@),
                typ,
                def,
                generic_args,
                span,
            ),
    {
        let callee = self.callee_expr(callee, span);
        self.call_of(callee.expr, args, typ, def, generic_args, span)
    }

    pub fn callee_expr(&mut self, callee: SymbolId, span: Span) -> (lowered: Lowered<'hir>)
        requires
            old(self).wf(),
        ensures
            final(self).wf(),
            (final(self)@, lowered@) == old(self)@.callee_expr(callee, span),
    {
        self.expr(ExpressionKind::Path(callee), Type::new(TypeKind::Unit), span)
    }

    pub fn call_of(
        &mut self,
        callee: &'hir Expression<'hir>,
        args: Vec<&'hir Expression<'hir>>,
        typ: Type,
        def: Res,
        generic_args: Option<&'hir [Type]>,
        span: Span,
    ) -> (lowered: Lowered<'hir>)
        requires
            old(self).wf(),
        ensures
            final(self).wf(),
            (final(self)@, lowered@) == old(self)@.call_of(
                callee@,
                expr_trees(args@),
                typ,
                def,
                generic_args,
                span,
            ),
    {
        let args = self.scope.arena.place(args);
        self.alloc_node(
            ExpressionKind::Call { callee, args },
            Node { typ, def: Some(def), args: generic_args, const_use: None },
            span,
        )
    }
}

} // verus!
