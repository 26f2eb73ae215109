//! What types the operators of the language take and give, and what the checks of a body mean.

use crate::ast;
use crate::ast::{BinaryOperator, Span, UnaryOperator};
use crate::hir::body::{Body, LoweredTree};
use crate::hir::infer::Inference;
use crate::hir::scope::Outcome;
use crate::hir::tree::{ExprTree, KindTree, Literal, StructField};
use crate::hir::types::{Type, TypeKind};
use crate::hir::typing::field_type;
use vstd::prelude::*;

verus! {

pub open spec fn is_integer_type(kind: TypeKind) -> bool {
    match kind {
        TypeKind::I8 | TypeKind::I16 | TypeKind::I32 | TypeKind::I64 | TypeKind::Iptr => true,
        TypeKind::U8 | TypeKind::U16 | TypeKind::U32 | TypeKind::U64 | TypeKind::Uptr => true,
        _ => false,
    }
}

pub open spec fn is_float_type(kind: TypeKind) -> bool {
    kind is F32 || kind is F64
}

pub open spec fn is_order(operator: BinaryOperator) -> bool {
    operator is Lt || operator is LtEq || operator is Gt || operator is GtEq
}

pub open spec fn is_equality(operator: BinaryOperator) -> bool {
    operator is Eq || operator is Ne
}

pub open spec fn is_arithmetic(operator: BinaryOperator) -> bool {
    operator is Add || operator is Sub || operator is Mul || operator is Div
}

pub open spec fn is_logic(operator: BinaryOperator) -> bool {
    operator is And || operator is Or
}

pub open spec fn is_bitwise(operator: BinaryOperator) -> bool {
    operator is BitAnd || operator is BitOr || operator is BitXor
}

pub open spec fn is_shift(operator: BinaryOperator) -> bool {
    operator is Shl || operator is Shr
}

/// Whether an operator takes two operands of one type.
pub open spec fn takes(operator: BinaryOperator, kind: TypeKind) -> bool {
    let integer = is_integer_type(kind);
    let number = integer || is_float_type(kind);
    ||| is_arithmetic(operator) && number
    ||| is_order(operator) && (number || kind is Char)
    ||| is_equality(operator)
    ||| is_logic(operator) && kind is Bool
    ||| is_bitwise(operator) && (integer || kind is Bool)
    ||| is_shift(operator) && integer
}

/// What an operator gives for two operands of one type.
pub open spec fn gives(operator: BinaryOperator, kind: TypeKind) -> TypeKind {
    if is_order(operator) || is_equality(operator) || is_logic(operator) {
        TypeKind::Bool
    } else {
        kind
    }
}

/// Whether a type is fully known and no struct, enum or reference, whose comparisons are methods.
pub open spec fn is_simple(kind: TypeKind) -> bool {
    match kind {
        TypeKind::Infer(_) | TypeKind::Error | TypeKind::Never => false,
        TypeKind::Struct(_) | TypeKind::Enum(_) | TypeKind::Ref { .. } => false,
        TypeKind::Slice { .. } => false,
        _ => true,
    }
}

pub open spec fn sound(table: Inference) -> bool {
    table.consistent() && table.integral()
}

proof fn lemma_together(table: Inference, a: Type, b: Type, known: Type)
    requires
        sound(table),
        table.resolve_shallow(a) == known,
        table.resolve_shallow(b) == known,
        !known.is_infer(),
        !known.diverges(),
        a.is_infer() || b.is_infer(),
    ensures
        table.unify(a, b).1,
        table.unify(a, b).0.resolve_shallow(a) == known,
        table.unify(a, b).0.resolve_shallow(b) == known,
        sound(table.unify(a, b).0),
{
    crate::hir::infer::lemma_unify_integral(table, a, b);
    let after = table.unify(a, b).0;
    if let Some(var) = a.infer_var() {
        crate::hir::infer::lemma_unify_monotone(table, a, b, var as int, var as int);
    }
    if let Some(var) = b.infer_var() {
        crate::hir::infer::lemma_unify_monotone(table, a, b, var as int, var as int);
    }
}

/// Types that stand for one known type agree, and go on standing for it.
proof fn lemma_known_agree<'hir>(body: Body<'hir>, a: Type, b: Type, known: Type, span: Span)
    requires
        sound(body.infer),
        body.infer.resolve_shallow(a) == known,
        body.infer.resolve_shallow(b) == known,
        !known.is_infer(),
        !known.diverges(),
    ensures
        body.assert_type(a, b, span).1 is Ok,
        body.assert_type(a, b, span).0.infer.resolve_shallow(a) == known,
        body.assert_type(a, b, span).0.infer.resolve_shallow(b) == known,
        sound(body.assert_type(a, b, span).0.infer),
{
    if a.is_infer() || b.is_infer() {
        lemma_together(body.infer, a, b, known);
    }
}

/// The types an operator takes: two operands of one known type are taken exactly where the
/// operator takes that type, and the result has the type the operator gives. So `<`, `<=`, `>` and
/// `>=` compare two integers, two floats or two characters and nothing else, and give a truth
/// value.
pub proof fn lemma_operator_types<'hir>(
    body: Body<'hir>,
    operator: BinaryOperator,
    left: LoweredTree<'hir>,
    right: LoweredTree<'hir>,
    kind: TypeKind,
    span: Span,
)
    requires
        sound(body.infer),
        Type::kind_wf(kind),
        is_simple(kind),
        body.infer.resolve_shallow(left.typ) == Type::new(kind),
        body.infer.resolve_shallow(right.typ) == Type::new(kind),
    ensures
        match body.combine(operator, left, right, span).1 {
            Ok(value) => {
                &&& !body.names.recover ==> takes(operator, kind)
                &&& value.typ == Type::new(gives(operator, kind))
                &&& value.span == span
                &&& value.expr.kind == (KindTree::Binary {
                    operator,
                    left: Box::new(left.expr),
                    right: Box::new(right.expr),
                })
            },
            Err(_) => !takes(operator, kind),
        },
{
    let known = Type::new(kind);
    let boolean = Type::new(TypeKind::Bool);
    Type::lemma_round_trip(kind);
    Type::lemma_round_trip(TypeKind::Bool);
    Type::lemma_round_trip(TypeKind::Char);
    Type::lemma_new_injective(kind, TypeKind::Bool);
    Type::lemma_new_injective(kind, TypeKind::Char);
    if left.typ.is_infer() {
        let var = left.typ.infer_var()->0;
        assert(known.is_integer());
    }
    if right.typ.is_infer() {
        let var = right.typ.infer_var()->0;
        assert(known.is_integer());
    }
    lemma_known_agree(body, left.typ, right.typ, known, span);
    if is_logic(operator) {
        if kind is Bool {
            assert(body.assert_type(boolean, left.typ, span).1 is Ok);
        } else {
            lemma_differ(body, boolean, left.typ, known, span);
        }
    }
}

/// Truth values agree with nothing but truth values.
proof fn lemma_differ<'hir>(body: Body<'hir>, wanted: Type, found: Type, known: Type, span: Span)
    requires
        sound(body.infer),
        wanted == Type::new(TypeKind::Bool),
        body.infer.resolve_shallow(found) == known,
        known != wanted,
        is_simple(known.kind()),
        known.wf(),
    ensures
        !body.names.recover ==> body.assert_type(wanted, found, span).1 is Err,
{
    Type::lemma_round_trip(TypeKind::Bool);
}

/// The same of a binary expression: its operands are lowered from left to right, and the whole is
/// taken where the operator takes their type.
pub proof fn lemma_binary_expression<'hir>(
    body: Body<'hir>,
    expr: ast::Binary<'hir>,
    hint: Option<Type>,
    kind: TypeKind,
)
    requires
        Type::kind_wf(kind),
        is_simple(kind),
    ensures
        match body.lower_expr(*expr.left, hint) {
            (_, Err(error)) => body.lower_expr(ast::Expression::Binary(expr), hint).1 == Outcome::<
                LoweredTree<'hir>,
            >::Err(error),
            (next, Ok(left)) => exists|wanted: Option<Type>|
                match #[trigger] next.lower_expr(*expr.right, wanted) {
                    (_, Err(error)) => body.lower_expr(ast::Expression::Binary(expr), hint).1
                        == Outcome::<LoweredTree<'hir>>::Err(error),
                    (last, Ok(right)) => {
                        sound(last.infer) && last.infer.resolve_shallow(left.typ) == Type::new(kind)
                            && last.infer.resolve_shallow(right.typ) == Type::new(kind)
                            && !last.names.recover ==> match body.lower_expr(
                            ast::Expression::Binary(expr),
                            hint,
                        ).1 {
                            Ok(value) => {
                                &&& takes(expr.operator, kind)
                                &&& value.typ == Type::new(gives(expr.operator, kind))
                                &&& value.expr.kind == (KindTree::Binary {
                                    operator: expr.operator,
                                    left: Box::new(left.expr),
                                    right: Box::new(right.expr),
                                })
                            },
                            Err(_) => !takes(expr.operator, kind),
                        }
                    },
                },
        },
{
    if let (next, Ok(left)) = body.lower_expr(*expr.left, hint) {
        let wanted = next.right_hint(expr.operator, left.typ);
        if let (last, Ok(right)) = next.lower_expr(*expr.right, wanted) {
            if sound(last.infer) && last.infer.resolve_shallow(left.typ) == Type::new(kind)
                && last.infer.resolve_shallow(right.typ) == Type::new(kind) {
                lemma_operator_types(last, expr.operator, left, right, kind, expr.span);
            }
        }
    }
}

/// Operands of two different known types are only taken by shifts: elsewhere the mismatch is told,
/// with the type of the left one as the one expected.
pub proof fn lemma_operands_differ<'hir>(
    body: Body<'hir>,
    operator: BinaryOperator,
    left: LoweredTree<'hir>,
    right: LoweredTree<'hir>,
    span: Span,
)
    requires
        !body.names.recover,
        is_simple(left.typ.kind()),
        is_simple(right.typ.kind()),
        !(left.typ.kind() is Array),
        left.typ != right.typ,
        left.typ.wf(),
        right.typ.wf(),
        !is_shift(operator),
    ensures
        body.combine(operator, left, right, span).1 is Err,
        !is_logic(operator) ==> body.combine(operator, left, right, span).1 == Outcome::<
            LoweredTree<'hir>,
        >::Err(
            crate::hir::error::HirError::new(
                crate::hir::error::HirErrorKind::TypeMismatch {
                    expected: left.typ,
                    found: right.typ,
                },
                span,
            ),
        ),
{
    Type::lemma_round_trip(TypeKind::Bool);
    left.typ.lemma_kind_injective(Type::new(TypeKind::Bool));
    right.typ.lemma_kind_injective(Type::new(TypeKind::Bool));
}

/// A shift takes integers on both sides, of whatever types, and gives the type of the left one.
pub proof fn lemma_shift_types<'hir>(
    body: Body<'hir>,
    operator: BinaryOperator,
    left: LoweredTree<'hir>,
    right: LoweredTree<'hir>,
    span: Span,
)
    requires
        is_shift(operator),
        !body.infer.resolve_shallow(left.typ).is_infer(),
        !body.infer.resolve_shallow(right.typ).is_infer(),
    ensures
        ({
            let a = body.infer.resolve_shallow(left.typ);
            let b = body.infer.resolve_shallow(right.typ);
            match body.combine(operator, left, right, span).1 {
                Ok(value) => is_integer_type(a.kind()) && is_integer_type(b.kind()) && value.typ
                    == a,
                Err(_) => !is_integer_type(a.kind()) || !is_integer_type(b.kind()),
            }
        }),
{
}

/// An operand whose type is still open takes on the integer type of the other.
pub proof fn lemma_open_operand<'hir>(
    body: Body<'hir>,
    operator: BinaryOperator,
    left: LoweredTree<'hir>,
    right: LoweredTree<'hir>,
    kind: TypeKind,
    span: Span,
)
    requires
        sound(body.infer),
        is_integer_type(kind),
        !is_logic(operator) && !is_shift(operator),
        left.typ.infer_var() matches Some(var) ==> var < body.infer.len(),
        right.typ.infer_var() matches Some(var) ==> var < body.infer.len(),
        (left.typ == Type::new(kind) && body.infer.resolve_shallow(right.typ).is_infer()) || (
        right.typ == Type::new(kind) && body.infer.resolve_shallow(left.typ).is_infer()),
    ensures
        ({
            let (after, outcome) = body.combine(operator, left, right, span);
            &&& outcome is Ok
            &&& outcome->Ok_0.typ == Type::new(gives(operator, kind))
            &&& after.infer.resolve_shallow(left.typ) == Type::new(kind)
            &&& after.infer.resolve_shallow(right.typ) == Type::new(kind)
        }),
{
    Type::lemma_round_trip(kind);
    Type::lemma_round_trip(TypeKind::Bool);
}

/// What a unary operator does to types: `-` keeps that of a number, `!` that of a truth value or an
/// integer, `*` gives what a reference is of, and `&` and `&mut` give a reference to the operand's
/// type, unless a slice is expected of an array.
pub proof fn lemma_unary_expression<'hir>(
    body: Body<'hir>,
    expr: ast::Unary<'hir>,
    hint: Option<Type>,
)
    ensures
        exists|wanted: Option<Type>| {
            let whole = body.lower_expr(ast::Expression::Unary(expr), hint).1;
            match #[trigger] body.lower_expr(*expr.expr, wanted) {
                (_, Err(error)) => whole == Outcome::<LoweredTree<'hir>>::Err(error),
                (next, Ok(operand)) => {
                    let kind = operand.typ.kind();
                    let number = is_integer_type(kind) || is_float_type(kind);
                    &&& whole matches Ok(value) ==> value.expr.kind == (KindTree::Unary {
                        operator: expr.operator,
                        expr: Box::new(operand.expr),
                    }) && value.span == expr.span
                    &&& match expr.operator {
                        UnaryOperator::Neg => match whole {
                            Ok(value) => number && value.typ == operand.typ,
                            Err(_) => !number,
                        },
                        UnaryOperator::Not => match whole {
                            Ok(value) => (kind is Bool || is_integer_type(kind)) && value.typ
                                == operand.typ,
                            Err(_) => !is_integer_type(kind) && operand.typ != Type::new(
                                TypeKind::Bool,
                            ),
                        },
                        UnaryOperator::Deref => match (whole, kind) {
                            (Ok(value), TypeKind::Ref { to, .. }) => value.typ
                                == Type::from_target(to),
                            (Err(_), TypeKind::Ref { .. }) => false,
                            (Err(_), _) => true,
                            _ => false,
                        },
                        _ => match whole {
                            Ok(value) => {
                                ||| hint == Some(value.typ) && value.typ.kind() is Slice && kind
                                    is Array
                                ||| !(kind is Ref) && !(kind is Slice) && operand.typ.fits_target()
                                    ==> match value.typ.kind() {
                                    TypeKind::Ref { mutable, to } => {
                                        &&& mutable == (expr.operator is RefMut)
                                        &&& Type::from_target(to).kind() == kind
                                    },
                                    _ => false,
                                }
                            },
                            Err(_) => true,
                        },
                    }
                },
            }
        },
{
    let wanted = crate::hir::typing::operand_hint(expr.operator, hint);
    Type::lemma_round_trip(TypeKind::Bool);
    if let (next, Ok(operand)) = body.lower_expr(*expr.expr, wanted) {
        let kind = operand.typ.kind();
        if !(kind is Ref) && !(kind is Slice) && operand.typ.fits_target() {
            operand.typ.lemma_pointed(expr.operator is RefMut);
        }
    }
}

/// A cast turns an integer, a truth value, a character or an enum into one of the first three, and
/// has the type it is to.
pub proof fn lemma_cast_expression<'hir>(body: Body<'hir>, expr: ast::Cast<'hir>, hint: Option<Type>)
    ensures
        ({
            let whole = body.lower_expr(ast::Expression::Cast(expr), hint).1;
            match body.resolve_type(expr.target_type) {
                (_, Err(error)) => whole == Outcome::<LoweredTree<'hir>>::Err(error),
                (next, Ok(target)) => match next.lower_expr(*expr.expr, None) {
                    (_, Err(error)) => whole == Outcome::<LoweredTree<'hir>>::Err(error),
                    (last, Ok(inner)) => {
                        let from = last.infer.resolve_shallow(inner.typ).kind();
                        let to = target.kind();
                        let plain = |kind: TypeKind|
                            is_integer_type(kind) || kind is Bool || kind is Char;
                        match whole {
                            Ok(value) => {
                                &&& (plain(from) || from is Enum || from is Infer) && plain(to)
                                &&& value.typ == target
                                &&& value.expr.kind == (KindTree::Cast {
                                    from: Box::new(inner.expr),
                                    to: target,
                                })
                            },
                            Err(_) => !plain(to) || !(plain(from) || from is Enum || from is Infer),
                        }
                    },
                },
            }
        }),
{
}

/// What literals are: an integer has the number type that is expected or one still to be inferred,
/// a float the float type that is expected or `f64`, and the others their own types.
pub proof fn lemma_literals<'hir>(body: Body<'hir>, expr: ast::Expression<'hir>, hint: Option<Type>)
    ensures
        match (expr, body.lower_expr(expr, hint)) {
            (ast::Expression::Integer(n, span), (after, outcome)) => outcome matches Ok(value)
                && value.expr.kind == KindTree::Literal(Literal::Int(n)) && match hint {
                Some(typ) if is_integer_type(typ.kind()) || is_float_type(typ.kind()) || typ.kind()
                    is Infer => value.typ == typ,
                _ => value.typ.infer_var() == Some(body.infer.len() as u32),
            },
            (ast::Expression::Float(bits, span), (after, outcome)) => outcome matches Ok(value)
                && value.expr.kind == KindTree::Literal(Literal::Float(bits)) && match hint {
                Some(typ) if is_float_type(typ.kind()) => value.typ == typ,
                _ => value.typ == Type::new(TypeKind::F64),
            },
            (ast::Expression::Bool(b, span), (after, outcome)) => outcome matches Ok(value)
                && value.expr.kind == KindTree::Literal(Literal::Bool(b)) && value.typ == Type::new(
                TypeKind::Bool,
            ),
            (ast::Expression::Char(c, span), (after, outcome)) => outcome matches Ok(value)
                && value.expr.kind == KindTree::Literal(Literal::Char(c)) && value.typ == Type::new(
                TypeKind::Char,
            ),
            (ast::Expression::String(text, span), (after, outcome)) => outcome matches Ok(value)
                && value.expr.kind is Literal && value.typ == Type::new(TypeKind::Str),
            _ => true,
        },
{
    Type::lemma_round_trip(TypeKind::Infer(body.infer.len() as u32));
}

/// A value that must have a type has it, unless errors are worked around: as far as inference can
/// tell the two types are one.
pub proof fn lemma_checked_expression<'hir>(body: Body<'hir>, expr: ast::Expression<'hir>, expected: Type)
    requires
        !body.lower_expr(expr, Some(expected)).0.names.recover,
        body.lower_expr(expr, Some(expected)).0.infer.consistent(),
    ensures
        body.lower_checked(expr, expected) matches (after, Ok(value)) ==> after.alike(
            expected,
            value.typ,
            after.names.arrays.types.len(),
        ) && body.lower_expr(expr, Some(expected)).1 == Outcome::<LoweredTree<'hir>>::Ok(value),
{
    if let (next, Ok(value)) = body.lower_expr(expr, Some(expected)) {
        if next.assert_type(expected, value.typ, value.span).1 is Ok {
            next.lemma_assert_type(expected, value.typ, value.span);
            next.lemma_assert_names(expected, value.typ, value.span);
        }
    }
}

/// What is branched and looped on is a truth value, unless errors are worked around.
pub proof fn lemma_condition<'hir>(body: Body<'hir>, expr: ast::Expression<'hir>, span: Option<Span>)
    requires
        !body.lower_expr(expr, None).0.names.recover,
        body.lower_expr(expr, None).0.infer.consistent(),
    ensures
        body.lower_condition(expr, span) matches (after, Ok(value)) ==> after.alike(
            Type::new(TypeKind::Bool),
            value.typ,
            after.names.arrays.types.len(),
        ) && body.lower_expr(expr, None).1 == Outcome::<LoweredTree<'hir>>::Ok(value),
{
    if let (next, Ok(value)) = body.lower_expr(expr, None) {
        let at = match span {
            Some(span) => span,
            None => value.span,
        };
        let boolean = Type::new(TypeKind::Bool);
        if next.assert_type(boolean, value.typ, at).1 is Ok {
            next.lemma_assert_type(boolean, value.typ, at);
            next.lemma_assert_names(boolean, value.typ, at);
        }
    }
}

/// The field of a name, if a definition has one.
pub proof fn lemma_field_found(fields: Seq<StructField>, name: crate::hir::symbols::SymbolId, at: int)
    requires
        0 <= at,
    ensures
        match field_type(fields, name, at) {
            Some(typ) => exists|i: int|
                at <= i < fields.len() && (#[trigger] fields[i]).name == name && fields[i].typ == typ,
            None => forall|i: int| at <= i < fields.len() ==> (#[trigger] fields[i]).name != name,
        },
    decreases fields.len() - at,
{
    if at < fields.len() && fields[at].name != name {
        lemma_field_found(fields, name, at + 1);
    }
}

/// A field access has the type that the definition of the struct gives the field of that name.
pub proof fn lemma_field_expression<'hir>(body: Body<'hir>, expr: ast::FieldAccess<'hir>, hint: Option<Type>)
    ensures
        body.lower_expr(ast::Expression::Field(expr), hint) matches (after, Ok(value)) ==> {
            let (next, inner) = body.lower_expr(*expr.expr, None);
            match (inner, value.expr.kind) {
                (Ok(base), KindTree::Field { base: tree, field }) => {
                    &&& *tree == base.expr
                    &&& field == next.insert(expr.field@).1
                    &&& match base.typ.strip_reference().kind() {
                        TypeKind::Struct(id) => match after.names.structure(id) {
                            Some(definition) => exists|i: int|
                                0 <= i < definition.fields@.len() && (
                                #[trigger] definition.fields@[i]).name == field
                                    && definition.fields@[i].typ == value.typ,
                            None => false,
                        },
                        _ => false,
                    }
                },
                _ => false,
            }
        },
{
    if let (next, Ok(base)) = body.lower_expr(*expr.expr, None) {
        if let TypeKind::Struct(id) = base.typ.strip_reference().kind() {
            let (last, symbol) = next.insert(expr.field@);
            if let Some(definition) = last.names.structure(id) {
                lemma_field_found(definition.fields@, symbol, 0);
            }
        }
    }
}

/// An index access has the type of the elements of what is indexed, and a literal index lies inside
/// an array.
pub proof fn lemma_index_expression<'hir>(body: Body<'hir>, expr: ast::IndexAccess<'hir>, hint: Option<Type>)
    ensures
        body.lower_expr(ast::Expression::Index(expr), hint) matches (after, Ok(value)) ==> {
            let (next, inner) = body.lower_expr(*expr.base, None);
            match (inner, value.expr.kind) {
                (Ok(base), KindTree::Index { base: tree, index }) => {
                    &&& *tree == base.expr
                    &&& match base.typ.strip_reference().kind() {
                        TypeKind::Slice { element, .. } => value.typ == Type::from_target(element),
                        TypeKind::Array(id) => match next.names.arrays.find(id) {
                            Some(array) => value.typ == array.element,
                            None => false,
                        },
                        _ => false,
                    }
                    &&& match (base.typ.kind(), index.kind) {
                        (TypeKind::Array(id), KindTree::Literal(Literal::Int(k))) =>
                            match after.names.arrays.find(id) {
                                Some(array) => 0 <= k < array.len,
                                None => true,
                            },
                        _ => true,
                    }
                },
                _ => false,
            }
        },
{
}

/// What is assigned to may be written: it starts from a mutable local, or lies in a slice that is
/// mutable. The assignment has the type of what is assigned to.
pub proof fn lemma_assignment<'hir>(body: Body<'hir>, expr: ast::Assignment<'hir>, hint: Option<Type>)
    ensures
        body.lower_expr(ast::Expression::Assignment(expr), hint) matches (after, Ok(value)) ==> {
            let (next, inner) = body.lower_expr(*expr.target, None);
            match (inner, value.expr.kind) {
                (Ok(target), KindTree::Assign { target: tree, .. }) => {
                    let local = match base_local(target.expr) {
                        Some(id) => id.0 < next.locals.len() && next.locals[id.0 as int].mutable,
                        None => false,
                    };
                    let slice = match target.expr.kind {
                        KindTree::Index { base, .. } => match next.node_type(base.id).kind() {
                            TypeKind::Slice { mutable, .. } => mutable,
                            _ => false,
                        },
                        _ => false,
                    };
                    &&& *tree == target.expr
                    &&& value.typ == target.typ
                    &&& local || slice
                },
                _ => false,
            }
        },
{
    if let (next, Ok(target)) = body.lower_expr(*expr.target, None) {
        lemma_base_local(target.expr);
    }
}

/// The local that a chain of fields and elements starts from.
pub open spec fn base_local(expr: ExprTree) -> Option<crate::hir::tree::LocalId>
    decreases expr,
{
    match expr.kind {
        KindTree::Local(id) => Some(id),
        KindTree::Field { base, .. } => base_local(*base),
        KindTree::Index { base, .. } => base_local(*base),
        _ => None,
    }
}

pub(crate) proof fn lemma_base_local(expr: ExprTree)
    ensures
        base_local(expr) == crate::hir::typing::place_base_local_spec(expr),
    decreases expr,
{
    match expr.kind {
        KindTree::Field { base, .. } => lemma_base_local(*base),
        KindTree::Index { base, .. } => lemma_base_local(*base),
        _ => {},
    }
}

/// Whether a tree is what an argument became for a parameter: a value that must have its type.
pub open spec fn lowered_for<'hir>(arg: ast::Expression<'hir>, param: Type, tree: ExprTree<'hir>) -> bool {
    exists|state: Body<'hir>| #[trigger]
        state.lower_checked(arg, param).1 is Ok && state.lower_checked(arg, param).1->Ok_0.expr
            == tree
}

/// As many arguments are lowered as there are parameters, each for its own: after it, its type and
/// that of the parameter were required to be one.
pub proof fn lemma_arguments<'hir>(
    body: Body<'hir>,
    args: Seq<ast::Expression<'hir>>,
    at: nat,
    params: Seq<Type>,
    lowered: Seq<ExprTree<'hir>>,
)
    requires
        args.len() == params.len(),
        at == lowered.len() <= args.len(),
    ensures
        body.lower_args(args, at, params, lowered) matches (after, Ok(all)) ==> {
            &&& all.len() == args.len()
            &&& all.take(at as int) == lowered
            &&& forall|i: int|
                at <= i < all.len() ==> #[trigger] lowered_for(args[i], params[i], all[i])
        },
    decreases args.len() - at,
{
    if at < args.len() {
        if let (next, Ok(value)) = body.lower_checked(args[at as int], params[at as int]) {
            let more = lowered.push(value.expr);
            lemma_arguments(next, args, at + 1, params, more);
            if let (after, Ok(all)) = next.lower_args(args, at + 1, params, more) {
                assert(all.take(at as int) =~= lowered) by {
                    assert(all.take(at as int + 1).take(at as int) =~= all.take(at as int));
                    assert(more.take(at as int) =~= lowered);
                }
                assert(all[at as int] == all.take(at as int + 1)[at as int]);
                assert(all[at as int] == value.expr);
                assert(lowered_for(args[at as int], params[at as int], all[at as int]));
            }
        }
    } else {
        assert(lowered.take(at as int) =~= lowered);
    }
}

} // verus!
