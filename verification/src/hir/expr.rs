//! Lowering of expressions: the walk over the expression tree.

use crate::arena::slice_of;
use crate::ast;
use crate::ast::{BinaryOperator, Span, Spanned};
use crate::hir::body::{
    mismatch, mismatch_error, seen_expr, Body, FunctionBuilder, Lowered, LoweredTree,
};
use crate::hir::error::{ConstFnViolationKind, HirError, HirErrorKind};
use crate::hir::typing::{
    fail, field_type, find_field, find_missing, find_variant, fine, hint_for_operand,
    infer_type_args, inferred_args, missing_field, operand_hint, place_base_local,
    place_base_local_spec, variant_position,
};
use crate::hir::scope::{FunctionSignature, Names, Outcome};
use crate::hir::symbols::{join, qualified, SymbolId};
use crate::hir::table::{get_id, get_pair, lookup, member_key};
use crate::hir::tree::{
    expr_tree, expr_trees, field_trees, kind_tree, ExprTree, Expression, ExpressionKind, FunctionId,
    FunctionKind, Intrinsic, KindTree, Literal, Node, Res, StructField, SyscallCode,
};
use crate::hir::type_resolver::contains_symbol;
use crate::hir::types::{Type, TypeKind};
use vstd::prelude::*;

verus! {

broadcast use vstd::std_specs::hash::group_hash_axioms;

/// Lowered arguments and their types.
pub ghost struct Arguments<'hir> {
    pub exprs: Seq<ExprTree<'hir>>,
    pub types: Seq<Type>,
}

impl<'hir> Body<'hir> {
    /// Lowers an expression, with the type its context expects.
    pub open spec fn lower_expr(self, expr: ast::Expression<'hir>, hint: Option<Type>) -> (
        Body<'hir>,
        Outcome<LoweredTree<'hir>>,
    )
        decreases expr, 0nat,
    {
        match expr {
            ast::Expression::Integer(value, span) => {
                let (body, typ) = match hint {
                    Some(typ) => if typ.is_number() || typ.is_infer() {
                        (self, typ)
                    } else {
                        let (infer, typ) = self.infer.fresh();
                        (Body { infer, ..self }, typ)
                    },
                    None => {
                        let (infer, typ) = self.infer.fresh();
                        (Body { infer, ..self }, typ)
                    },
                };
                fine(body.expr(KindTree::Literal(Literal::Int(value)), typ, span))
            },
            ast::Expression::Float(bits, span) => {
                let typ = match hint {
                    Some(typ) => if typ.is_float() {
                        typ
                    } else {
                        Type::new(TypeKind::F64)
                    },
                    None => Type::new(TypeKind::F64),
                };
                fine(self.expr(KindTree::Literal(Literal::Float(bits)), typ, span))
            },
            ast::Expression::String(value, span) => {
                let (body, symbol) = self.insert(value@);
                fine(
                    body.expr(
                        KindTree::Literal(Literal::Str(symbol)),
                        Type::new(TypeKind::Str),
                        span,
                    ),
                )
            },
            ast::Expression::Char(value, span) => fine(
                self.expr(KindTree::Literal(Literal::Char(value)), Type::new(TypeKind::Char), span),
            ),
            ast::Expression::Bool(value, span) => fine(
                self.expr(KindTree::Literal(Literal::Bool(value)), Type::new(TypeKind::Bool), span),
            ),
            ast::Expression::Identifier(name, span) => self.lower_identifier(name@, span),
            ast::Expression::QualifiedName(expr) => self.lower_qualified_name(expr),
            ast::Expression::Cast(expr) => self.lower_cast(expr),
            ast::Expression::Unary(expr) => self.lower_unary(expr, hint),
            ast::Expression::Binary(expr) => self.lower_binary(expr, hint),
            ast::Expression::Assignment(expr) => self.lower_assignment(expr),
            ast::Expression::Struct(expr) => self.lower_struct_literal(expr),
            ast::Expression::Field(expr) => self.lower_field(expr),
            ast::Expression::Array(expr) => self.lower_array(expr, hint),
            ast::Expression::ArrayRepeat(expr) => self.lower_array_repeat(expr, hint),
            ast::Expression::Index(expr) => self.lower_index(expr),
            ast::Expression::Call(expr) => self.lower_call(expr),
            ast::Expression::QualifiedCall(expr) => self.lower_qualified_call(expr, hint),
            ast::Expression::TypeIntrinsic(expr) => self.lower_type_intrinsic(expr),
        }
    }

    pub open spec fn lower_cast(self, expr: ast::Cast<'hir>) -> (
        Body<'hir>,
        Outcome<LoweredTree<'hir>>,
    )
        decreases expr, 1nat,
    {
        match self.resolve_type(expr.target_type) {
            (body, Err(error)) => (body, Err(error)),
            (body, Ok(target)) => match body.lower_expr(*expr.expr, None) {
                (body, Err(error)) => (body, Err(error)),
                (body, Ok(inner)) => {
                    let src = body.infer.resolve_shallow(inner.typ);
                    let castable = src.is_primitive_castable() || src.is_infer()
                        || src.kind() is Enum;
                    if !castable || !target.is_primitive_castable() {
                        fail(body, HirErrorKind::InvalidCast { src, target }, expr.span)
                    } else {
                        fine(
                            body.expr(
                                KindTree::Cast { from: Box::new(inner.expr), to: target },
                                target,
                                expr.span,
                            ),
                        )
                    }
                },
            },
        }
    }

    pub open spec fn lower_unary(self, expr: ast::Unary<'hir>, hint: Option<Type>) -> (
        Body<'hir>,
        Outcome<LoweredTree<'hir>>,
    )
        decreases expr, 1nat,
    {
        match self.lower_expr(*expr.expr, operand_hint(expr.operator, hint)) {
            (body, Err(error)) => (body, Err(error)),
            (body, Ok(operand)) => match body.type_for_unary(expr.operator, operand, hint) {
                (body, Err(error)) => (body, Err(error)),
                (body, Ok(typ)) => fine(
                    body.expr(
                        KindTree::Unary { operator: expr.operator, expr: Box::new(operand.expr) },
                        typ,
                        expr.span,
                    ),
                ),
            },
        }
    }

    pub open spec fn lower_binary(self, expr: ast::Binary<'hir>, hint: Option<Type>) -> (
        Body<'hir>,
        Outcome<LoweredTree<'hir>>,
    )
        decreases expr, 1nat,
    {
        match self.lower_expr(*expr.left, hint) {
            (body, Err(error)) => (body, Err(error)),
            (body, Ok(left)) => match body.lower_expr(
                *expr.right,
                body.right_hint(expr.operator, left.typ),
            ) {
                (body, Err(error)) => (body, Err(error)),
                (body, Ok(right)) => body.combine(expr.operator, left, right, expr.span),
            },
        }
    }

    /// A binary operation on lowered operands, overloaded for structs and enums.
    pub open spec fn combine(
        self,
        operator: BinaryOperator,
        left: LoweredTree<'hir>,
        right: LoweredTree<'hir>,
        span: Span,
    ) -> (Body<'hir>, Outcome<LoweredTree<'hir>>) {
        let kind = KindTree::Binary {
            operator,
            left: Box::new(left.expr),
            right: Box::new(right.expr),
        };
        let receiver = left.typ.strip_reference();
        match operator.overload_method() {
            Some(method) => if receiver.kind() is Struct || receiver.kind() is Enum {
                let (body, symbol) = self.insert(method@);
                match lookup(body.names.methods, member_key(receiver, symbol)) {
                    Some(function) => fine(
                        body.alloc_node(
                            kind,
                            Node {
                                typ: Type::new(TypeKind::Bool),
                                def: Some(Res::Function(function)),
                                args: None,
                                const_use: None,
                            },
                            span,
                        ),
                    ),
                    None => fail(
                        body,
                        HirErrorKind::OperatorRequiresInterface {
                            op: operator.symbol()@,
                            operand: body.nominal_text(receiver),
                            required: operator.required_interface(),
                        },
                        span,
                    ),
                }
            } else {
                self.combine_plain(operator, left, right, span)
            },
            None => self.combine_plain(operator, left, right, span),
        }
    }

    /// A binary operation on values of primitive types.
    pub open spec fn combine_plain(
        self,
        operator: BinaryOperator,
        left: LoweredTree<'hir>,
        right: LoweredTree<'hir>,
        span: Span,
    ) -> (Body<'hir>, Outcome<LoweredTree<'hir>>) {
        match self.type_for_binary(operator, left.typ, right.typ, span) {
            (body, Err(error)) => (body, Err(error)),
            (body, Ok(typ)) => fine(
                body.expr(
                    KindTree::Binary {
                        operator,
                        left: Box::new(left.expr),
                        right: Box::new(right.expr),
                    },
                    typ,
                    span,
                ),
            ),
        }
    }

    pub open spec fn lower_assignment(self, expr: ast::Assignment<'hir>) -> (
        Body<'hir>,
        Outcome<LoweredTree<'hir>>,
    )
        decreases expr, 1nat,
    {
        match self.lower_expr(*expr.target, None) {
            (body, Err(error)) => (body, Err(error)),
            (body, Ok(target)) => match body.check_assignable(
                target,
                expr.target.span(),
                expr.span,
            ) {
                Err(error) => (body, Err(error)),
                Ok(_) => match body.lower_expr(*expr.value, Some(target.typ)) {
                    (body, Err(error)) => (body, Err(error)),
                    (body, Ok(value)) => match body.assert_type(
                        target.typ,
                        value.typ,
                        expr.span,
                    ) {
                        (body, Err(error)) => (body, Err(error)),
                        (body, Ok(_)) => fine(
                            body.expr(
                                KindTree::Assign {
                                    target: Box::new(target.expr),
                                    value: Box::new(value.expr),
                                },
                                target.typ,
                                expr.span,
                            ),
                        ),
                    },
                },
            },
        }
    }

    pub open spec fn lower_struct_literal(self, expr: ast::StructLiteral<'hir>) -> (
        Body<'hir>,
        Outcome<LoweredTree<'hir>>,
    )
        decreases expr, 1nat,
    {
        match self.literal_struct(expr) {
            (body, Err(error)) => (body, Err(error)),
            (body, Ok(id)) => match body.names.structure(id) {
                None => fail(body, HirErrorKind::UnknownType { name: expr.name@ }, expr.span),
                Some(definition) => {
                    let struct_name = body.names.name(definition.name);
                    match body.lower_fields(
                        expr.fields@,
                        0,
                        definition.fields@,
                        struct_name,
                        seq![],
                        seq![],
                    ) {
                        (body, Err(error)) => (body, Err(error)),
                        (body, Ok((given, fields))) => match missing_field(
                            definition.fields@,
                            given,
                            0,
                        ) {
                            Some(missing) => fail(
                                body,
                                HirErrorKind::MissingField {
                                    struct_name,
                                    field: body.names.name(missing),
                                },
                                expr.span,
                            ),
                            None => fine(
                                body.expr(
                                    KindTree::Struct { id, fields },
                                    Type::structure(id),
                                    expr.span,
                                ),
                            ),
                        },
                    }
                },
            },
        }
    }

    /// The fields of a struct literal from position `at` on.
    pub open spec fn lower_fields(
        self,
        inits: Seq<ast::FieldInit<'hir>>,
        at: nat,
        definition: Seq<StructField>,
        struct_name: Seq<char>,
        given: Seq<SymbolId>,
        lowered: Seq<(SymbolId, ExprTree<'hir>)>,
    ) -> (Body<'hir>, Outcome<(Seq<SymbolId>, Seq<(SymbolId, ExprTree<'hir>)>)>)
        decreases inits, inits.len() - at,
    {
        if at >= inits.len() {
            (self, Ok((given, lowered)))
        } else {
            let init = inits[at as int];
            let (body, symbol) = self.insert(init.name@);
            if given.contains(symbol) {
                fail(body, HirErrorKind::DuplicateField { name: init.name@ }, init.span)
            } else {
                match field_type(definition, symbol, 0) {
                    None => fail(
                        body,
                        HirErrorKind::UnknownField { struct_name, field: init.name@ },
                        init.span,
                    ),
                    Some(expected) => match body.lower_checked(init.value, expected) {
                        (body, Err(error)) => (body, Err(error)),
                        (body, Ok(value)) => body.lower_fields(
                            inits,
                            at + 1,
                            definition,
                            struct_name,
                            given.push(symbol),
                            lowered.push((symbol, value.expr)),
                        ),
                    },
                }
            }
        }
    }

    /// An expression that must have the given type.
    pub open spec fn lower_checked(self, expr: ast::Expression<'hir>, expected: Type) -> (
        Body<'hir>,
        Outcome<LoweredTree<'hir>>,
    )
        decreases expr, 1nat,
    {
        match self.lower_expr(expr, Some(expected)) {
            (body, Err(error)) => (body, Err(error)),
            (body, Ok(value)) => match body.assert_type(expected, value.typ, value.span) {
                (body, Err(error)) => (body, Err(error)),
                (body, Ok(_)) => (body, Ok(value)),
            },
        }
    }

    pub open spec fn lower_field(self, expr: ast::FieldAccess<'hir>) -> (
        Body<'hir>,
        Outcome<LoweredTree<'hir>>,
    )
        decreases expr, 1nat,
    {
        match self.lower_expr(*expr.expr, None) {
            (body, Err(error)) => (body, Err(error)),
            (body, Ok(base)) => if !(base.expr.kind is Local || base.expr.kind is Field) {
                fail(body, HirErrorKind::InvalidFieldAccess, expr.span)
            } else {
                match body.lookup_field(base.typ, expr.field@, expr.span) {
                    (body, Err(error)) => (body, Err(error)),
                    (body, Ok((field, typ))) => fine(
                        body.expr(
                            KindTree::Field { base: Box::new(base.expr), field },
                            typ,
                            expr.span,
                        ),
                    ),
                }
            },
        }
    }

    pub open spec fn lower_array(self, expr: ast::ArrayLiteral<'hir>, hint: Option<Type>) -> (
        Body<'hir>,
        Outcome<LoweredTree<'hir>>,
    )
        decreases expr, 1nat,
    {
        let element_hint = match hint {
            Some(typ) => self.element_type(typ),
            None => None,
        };
        match self.lower_elements(expr.elements@, 0, None, element_hint, seq![]) {
            (body, Err(error)) => (body, Err(error)),
            (body, Ok((first, elements))) => {
                let element = match first {
                    Some(typ) => Some(typ),
                    None => element_hint,
                };
                match element {
                    None => fail(body, HirErrorKind::EmptyArrayType, expr.span),
                    Some(element) => body.array_expr(
                        KindTree::Array { elements },
                        element,
                        expr.elements@.len() as u32,
                        expr.span,
                    ),
                }
            },
        }
    }

    /// An array expression with elements of the given type.
    pub open spec fn array_expr(
        self,
        kind: KindTree<'hir>,
        element: Type,
        len: u32,
        span: Span,
    ) -> (Body<'hir>, Outcome<LoweredTree<'hir>>) {
        let (arrays, id) = self.names.arrays.intern(self.infer.resolve_shallow(element), len);
        let body = self.with_names(Names { arrays, ..self.names });
        fine(body.expr(kind, Type::array(id), span))
    }

    /// The elements of an array literal from position `at` on. The first one decides the type.
    pub open spec fn lower_elements(
        self,
        elements: Seq<ast::Expression<'hir>>,
        at: nat,
        first: Option<Type>,
        hint: Option<Type>,
        lowered: Seq<ExprTree<'hir>>,
    ) -> (Body<'hir>, Outcome<(Option<Type>, Seq<ExprTree<'hir>>)>)
        decreases elements, elements.len() - at,
    {
        if at >= elements.len() {
            (self, Ok((first, lowered)))
        } else {
            let expected = match first {
                Some(typ) => Some(typ),
                None => hint,
            };
            match self.lower_expr(elements[at as int], expected) {
                (body, Err(error)) => (body, Err(error)),
                (body, Ok(value)) => {
                    let element = match first {
                        Some(typ) => typ,
                        None => value.typ,
                    };
                    match body.assert_type(element, value.typ, value.span) {
                        (body, Err(error)) => (body, Err(error)),
                        (body, Ok(_)) => body.lower_elements(
                            elements,
                            at + 1,
                            Some(element),
                            hint,
                            lowered.push(value.expr),
                        ),
                    }
                },
            }
        }
    }

    pub open spec fn lower_array_repeat(self, expr: ast::ArrayRepeat<'hir>, hint: Option<Type>) -> (
        Body<'hir>,
        Outcome<LoweredTree<'hir>>,
    )
        decreases expr, 1nat,
    {
        let element_hint = match hint {
            Some(typ) => self.element_type(typ),
            None => None,
        };
        match self.lower_expr(*expr.value, element_hint) {
            (body, Err(error)) => (body, Err(error)),
            (body, Ok(value)) => body.array_expr(
                KindTree::ArrayRepeat { value: Box::new(value.expr), count: expr.count as u32 },
                value.typ,
                expr.count as u32,
                expr.span,
            ),
        }
    }

    pub open spec fn lower_index(self, expr: ast::IndexAccess<'hir>) -> (
        Body<'hir>,
        Outcome<LoweredTree<'hir>>,
    )
        decreases expr, 1nat,
    {
        match self.lower_expr(*expr.base, None) {
            (body, Err(error)) => (body, Err(error)),
            (body, Ok(base)) => match body.element_type(base.typ) {
                None => fail(body, HirErrorKind::NotIndexable { typ: base.typ }, expr.span),
                Some(element) => match body.lower_expr(
                    *expr.index,
                    Some(Type::new(TypeKind::Uptr)),
                ) {
                    (body, Err(error)) => (body, Err(error)),
                    (body, Ok(index)) => body.index_expr(base, index, element, expr.span),
                },
            },
        }
    }

    /// An index access on lowered operands. An index still open becomes `uptr`, and a literal
    /// one is checked against the length of an array.
    pub open spec fn index_expr(
        self,
        base: LoweredTree<'hir>,
        index: LoweredTree<'hir>,
        element: Type,
        span: Span,
    ) -> (Body<'hir>, Outcome<LoweredTree<'hir>>) {
        let uptr = Type::new(TypeKind::Uptr);
        let known = self.infer.resolve_shallow(index.typ);
        let body = if known.is_infer() {
            Body { infer: self.infer.unify(uptr, known).0, ..self }
        } else {
            self
        };
        let known = body.infer.resolve_shallow(known);
        if !known.is_integer() {
            (body, Err(mismatch(uptr, known, index.span)))
        } else {
            match body.out_of_bounds(base.typ, index.expr.kind) {
                Some((index, len)) => fail(
                    body,
                    HirErrorKind::IndexOutOfBounds { index, len },
                    span,
                ),
                None => fine(
                    body.expr(
                        KindTree::Index {
                            base: Box::new(base.expr),
                            index: Box::new(index.expr),
                        },
                        element,
                        span,
                    ),
                ),
            }
        }
    }

    /// A literal index that lies outside an array, with the array's length.
    pub open spec fn out_of_bounds(self, base: Type, index: KindTree<'hir>) -> Option<(u64, u32)> {
        match (base.kind(), index) {
            (TypeKind::Array(id), KindTree::Literal(Literal::Int(k))) =>
                match self.names.arrays.find(id) {
                    Some(array) => if k < 0 || k >= array.len {
                        Some((k as u64, array.len))
                    } else {
                        None
                    },
                    None => None,
                },
            _ => None,
        }
    }

    /// Arguments without expected types, from position `at` on.
    pub open spec fn lower_all(
        self,
        args: Seq<ast::Expression<'hir>>,
        at: nat,
        lowered: Arguments<'hir>,
    ) -> (Body<'hir>, Outcome<Arguments<'hir>>)
        decreases args, args.len() - at,
    {
        if at >= args.len() {
            (self, Ok(lowered))
        } else {
            match self.lower_expr(args[at as int], None) {
                (body, Err(error)) => (body, Err(error)),
                (body, Ok(arg)) => body.lower_all(
                    args,
                    at + 1,
                    Arguments {
                        exprs: lowered.exprs.push(arg.expr),
                        types: lowered.types.push(arg.typ),
                    },
                ),
            }
        }
    }

    /// Arguments for the given parameters, from position `at` on.
    pub open spec fn lower_args(
        self,
        args: Seq<ast::Expression<'hir>>,
        at: nat,
        params: Seq<Type>,
        lowered: Seq<ExprTree<'hir>>,
    ) -> (Body<'hir>, Outcome<Seq<ExprTree<'hir>>>)
        decreases args, args.len() - at,
    {
        if at >= args.len() || at >= params.len() {
            (self, Ok(lowered))
        } else {
            match self.lower_checked(args[at as int], params[at as int]) {
                (body, Err(error)) => (body, Err(error)),
                (body, Ok(arg)) => body.lower_args(
                    args,
                    at + 1,
                    params,
                    lowered.push(arg.expr),
                ),
            }
        }
    }

    pub open spec fn lower_call(self, expr: ast::Call<'hir>) -> (
        Body<'hir>,
        Outcome<LoweredTree<'hir>>,
    )
        decreases expr, 3nat,
    {
        match *expr.callee {
            ast::Expression::Field(callee) => self.lower_method_call(expr, callee),
            ast::Expression::Identifier(name, _) => match self.names.resolve_function_call(
                None,
                name@,
            ) {
                None => fail(self, HirErrorKind::UnknownFunction { name: name@ }, expr.span),
                Some(id) => self.lower_function_call(id, expr.args@, expr.type_args@, expr.span),
            },
            _ => fail(self, HirErrorKind::UnknownFunction { name: "<expression>"@ }, expr.span),
        }
    }

    pub open spec fn lower_method_call(
        self,
        expr: ast::Call<'hir>,
        callee: ast::FieldAccess<'hir>,
    ) -> (Body<'hir>, Outcome<LoweredTree<'hir>>)
        decreases expr, 2nat,
    {
        if !(*expr.callee == ast::Expression::Field(callee)) {
            arbitrary()
        } else {
            proof {
                assert(decreases_to!(expr => *expr.callee));
                assert(decreases_to!(*expr.callee => (*expr.callee)->Field_0));
                assert(decreases_to!(callee => *callee.expr));
            }
            match self.lower_expr(*callee.expr, None) {
                (body, Err(error)) => (body, Err(error)),
                (body, Ok(receiver)) => {
                    let base_type = receiver.typ.strip_reference();
                    let (body, method) = body.insert(callee.field@);
                    match body.method_owner(base_type, receiver.span) {
                        (body, Err(error)) => (body, Err(error)),
                        (body, Ok(owner)) => {
                            let unknown = HirErrorKind::UnknownMethod {
                                struct_name: body.nominal_text(base_type),
                                name: callee.field@,
                            };
                            match lookup(body.names.methods, member_key(owner, method)) {
                                None => fail(body, unknown, expr.span),
                                Some(function) => match body.names.signature(function) {
                                    None => fail(body, unknown, expr.span),
                                    Some(signature) => match signature.kind {
                                        FunctionKind::Intrinsic(intrinsic) => {
                                            let (body, arg) = body.coerce_method_receiver(
                                                receiver,
                                                owner,
                                            );
                                            fine(
                                                body.expr(
                                                    KindTree::IntrinsicCall {
                                                        intrinsic,
                                                        args: seq![arg],
                                                    },
                                                    signature.return_type,
                                                    expr.span,
                                                ),
                                            )
                                        },
                                        _ => body.lower_method_args(
                                            expr,
                                            callee.field@,
                                            receiver,
                                            method,
                                            function,
                                            signature,
                                        ),
                                    },
                                },
                            }
                        },
                    }
                },
            }
        }
    }

    /// A method call whose receiver and method are known. A method that takes `&mut self` needs a
    /// place that may be written to, or a mutable reference.
    pub open spec fn lower_method_args(
        self,
        expr: ast::Call<'hir>,
        name: Seq<char>,
        receiver: LoweredTree<'hir>,
        method: SymbolId,
        function: FunctionId,
        signature: FunctionSignature<'hir>,
    ) -> (Body<'hir>, Outcome<LoweredTree<'hir>>)
        decreases expr, 1nat,
    {
        let base = place_base_local_spec(receiver.expr);
        let writable = match receiver.typ.kind() {
            TypeKind::Ref { mutable: true, .. } => true,
            _ => match base {
                Some(id) => self.local_mutable(id),
                None => false,
            },
        };
        let params = signature.explicit_params_spec();
        if signature.receiver_mutable_spec() && !writable {
            fail(
                self,
                HirErrorKind::ImmutableBind {
                    name: match base {
                        Some(id) => self.local_name(id),
                        None => "temporary"@,
                    },
                },
                expr.span,
            )
        } else if params.len() != expr.args@.len() {
            fail(
                self,
                HirErrorKind::ArityMismatch {
                    name,
                    expected: params.len() as usize,
                    found: expr.args@.len() as usize,
                },
                expr.span,
            )
        } else {
            match self.lower_args(expr.args@, 0, params, seq![]) {
                (body, Err(error)) => (body, Err(error)),
                (body, Ok(args)) => match body.turbofish(expr.type_args@) {
                    (body, Err(error)) => (body, Err(error)),
                    (body, Ok(generic)) => fine(
                        body.alloc_node(
                            KindTree::MethodCall {
                                name: method,
                                receiver: Box::new(receiver.expr),
                                args,
                            },
                            Node {
                                typ: signature.return_type,
                                def: Some(Res::Function(function)),
                                args: if generic.len() > 0 {
                                    Some(slice_of(generic))
                                } else {
                                    None
                                },
                                const_use: None,
                            },
                            expr.span,
                        ),
                    ),
                },
            }
        }
    }

    pub open spec fn lower_qualified_call(
        self,
        expr: ast::QualifiedCall<'hir>,
        hint: Option<Type>,
    ) -> (Body<'hir>, Outcome<LoweredTree<'hir>>)
        decreases expr, 3nat,
    {
        match self.lower_variant(expr, hint) {
            (body, Err(error)) => (body, Err(error)),
            (body, Ok(Some(lowered))) => (body, Ok(lowered)),
            (body, Ok(None)) => match body.names.resolve_function_call(
                Some(expr.qualifier@),
                expr.name@,
            ) {
                None => fail(
                    body,
                    HirErrorKind::UnknownFunction { name: join(expr.qualifier@, expr.name@) },
                    expr.span,
                ),
                Some(id) => body.lower_function_call(id, expr.args@, expr.type_args@, expr.span),
            },
        }
    }

    /// `Enum::Variant(payload)`, if the qualifier is an enum with such a variant.
    pub open spec fn lower_variant(self, expr: ast::QualifiedCall<'hir>, hint: Option<Type>) -> (
        Body<'hir>,
        Outcome<Option<LoweredTree<'hir>>>,
    )
        decreases expr, 2nat,
    {
        let (body, owner) = self.insert(expr.qualifier@);
        match body.resolve_enum_id(expr, owner, hint) {
            (body, Err(error)) => (body, Err(error)),
            (body, Ok(None)) => (body, Ok(None)),
            (body, Ok(Some(id))) => {
                let (body, variant) = body.insert(expr.name@);
                match body.names.enumeration(id) {
                    None => (body, Ok(None)),
                    Some(definition) => match variant_position(definition.variants@, variant, 0) {
                        None => (body, Ok(None)),
                        Some(index) => match body.lower_payload(
                            expr,
                            definition.variants@[index as int].payload,
                        ) {
                            (body, Err(error)) => (body, Err(error)),
                            (body, Ok(args)) => {
                                let (body, lowered) = body.call_expr(
                                    variant,
                                    args,
                                    Type::enumerable(id),
                                    Res::Variant { id, index },
                                    None,
                                    expr.span,
                                );
                                (body, Ok(Some(lowered)))
                            },
                        },
                    },
                }
            },
        }
    }

    /// The payload of a variant, as a list of at most one argument.
    pub open spec fn lower_payload(self, expr: ast::QualifiedCall<'hir>, payload: Option<Type>) -> (
        Body<'hir>,
        Outcome<Seq<ExprTree<'hir>>>,
    )
        decreases expr, 1nat,
    {
        match payload {
            Some(expected) => if expr.args@.len() > 0 {
                match self.lower_checked(expr.args@[0], expected) {
                    (body, Err(error)) => (body, Err(error)),
                    (body, Ok(value)) => (body, Ok(seq![value.expr])),
                }
            } else {
                fail(
                    self,
                    HirErrorKind::ArityMismatch { name: expr.name@, expected: 1, found: 0 },
                    expr.span,
                )
            },
            None => if expr.args@.len() == 0 {
                (self, Ok(seq![]))
            } else {
                fail(
                    self,
                    HirErrorKind::ArityMismatch {
                        name: expr.name@,
                        expected: 0,
                        found: expr.args@.len() as usize,
                    },
                    expr.span,
                )
            },
        }
    }

    /// A call of a known function.
    pub open spec fn lower_function_call(
        self,
        id: FunctionId,
        args: Seq<ast::Expression<'hir>>,
        type_args: Seq<Spanned<ast::Type<'hir>>>,
        span: Span,
    ) -> (Body<'hir>, Outcome<LoweredTree<'hir>>)
        decreases args, args.len() + 3,
    {
        match self.names.signature(id) {
            None => fail(self, HirErrorKind::UnknownFunction { name: Seq::empty() }, span),
            Some(signature) => match lookup(self.names.generic_fns, id.0) {
                Some(template) => self.lower_generic_call(
                    id,
                    signature,
                    *template,
                    args,
                    type_args,
                    span,
                ),
                None => self.lower_direct_call(id, signature, args, type_args, span),
            },
        }
    }

    pub open spec fn lower_direct_call(
        self,
        id: FunctionId,
        signature: FunctionSignature<'hir>,
        args: Seq<ast::Expression<'hir>>,
        type_args: Seq<Spanned<ast::Type<'hir>>>,
        span: Span,
    ) -> (Body<'hir>, Outcome<LoweredTree<'hir>>)
        decreases args, args.len() + 2,
    {
        let name = self.names.name(signature.name);
        match signature.kind {
            FunctionKind::Intrinsic(Intrinsic::Syscall) => self.lower_syscall(
                args,
                signature.return_type,
                span,
            ),
            FunctionKind::Intrinsic(intrinsic) => match self.lower_all(
                args,
                0,
                Arguments { exprs: seq![], types: seq![] },
            ) {
                (body, Err(error)) => (body, Err(error)),
                (body, Ok(lowered)) => fine(
                    body.expr(
                        KindTree::IntrinsicCall { intrinsic, args: lowered.exprs },
                        signature.return_type,
                        span,
                    ),
                ),
            },
            _ => if self.is_const && !signature.is_const {
                fail(
                    self,
                    HirErrorKind::ConstFnViolation(ConstFnViolationKind::NonConstCall { name }),
                    span,
                )
            } else if signature.params@.len() != args.len() {
                fail(
                    self,
                    HirErrorKind::ArityMismatch {
                        name,
                        expected: signature.params@.len() as usize,
                        found: args.len() as usize,
                    },
                    span,
                )
            } else {
                match self.lower_args(args, 0, signature.params@, seq![]) {
                    (body, Err(error)) => (body, Err(error)),
                    (body, Ok(lowered)) => {
                        let (body, callee) = body.callee_expr(signature.name, span);
                        match body.turbofish(type_args) {
                            (body, Err(error)) => (body, Err(error)),
                            (body, Ok(generic)) => fine(
                                body.call_of(
                                    callee.expr,
                                    lowered,
                                    signature.return_type,
                                    Res::Function(id),
                                    if generic.len() > 0 {
                                        Some(slice_of(generic))
                                    } else {
                                        None
                                    },
                                    span,
                                ),
                            ),
                        }
                    },
                }
            },
        }
    }

    /// A call of a generic function, whose arguments bind its parameters unless they are given.
    pub open spec fn lower_generic_call(
        self,
        id: FunctionId,
        signature: FunctionSignature<'hir>,
        template: ast::Function<'hir>,
        args: Seq<ast::Expression<'hir>>,
        type_args: Seq<Spanned<ast::Type<'hir>>>,
        span: Span,
    ) -> (Body<'hir>, Outcome<LoweredTree<'hir>>)
        decreases args, args.len() + 2,
    {
        if signature.params@.len() != args.len() {
            fail(
                self,
                HirErrorKind::ArityMismatch {
                    name: self.names.name(signature.name),
                    expected: signature.params@.len() as usize,
                    found: args.len() as usize,
                },
                span,
            )
        } else {
            match self.lower_all(args, 0, Arguments { exprs: seq![], types: seq![] }) {
                (body, Err(error)) => (body, Err(error)),
                (body, Ok(lowered)) => {
                    let (body, generic) = if type_args.len() > 0 {
                        body.turbofish(type_args)
                    } else {
                        (
                            body,
                            Ok(
                                inferred_args(
                                    signature.params@,
                                    lowered.types,
                                    template.generics@.len(),
                                ),
                            ),
                        )
                    };
                    match generic {
                        Err(error) => (body, Err(error)),
                        Ok(generic) => match body.names.check_bounds(
                            template.generics@,
                            generic,
                            Some(body.generics@),
                            span,
                            0,
                        ) {
                            Err(error) => (body, Err(error)),
                            Ok(_) => fine(
                                body.call_expr(
                                    signature.name,
                                    lowered.exprs,
                                    signature.return_type.subst_spec(generic),
                                    Res::Function(id),
                                    Some(slice_of(generic)),
                                    span,
                                ),
                            ),
                        },
                    }
                },
            }
        }
    }

    /// A system call: the first argument names it.
    pub open spec fn lower_syscall(
        self,
        args: Seq<ast::Expression<'hir>>,
        return_type: Type,
        span: Span,
    ) -> (Body<'hir>, Outcome<LoweredTree<'hir>>)
        decreases args, args.len() + 1,
    {
        if !self.names.in_std {
            fail(self, HirErrorKind::UnknownFunction { name: "syscall"@ }, span)
        } else if args.len() == 0 {
            fail(
                self,
                HirErrorKind::ArityMismatch { name: "syscall"@, expected: 1, found: 0 },
                span,
            )
        } else if args.len() > 7 {
            fail(
                self,
                HirErrorKind::ArityMismatch {
                    name: "syscall"@,
                    expected: 7,
                    found: args.len() as usize,
                },
                span,
            )
        } else {
            match args[0] {
                ast::Expression::Identifier(name, code_span) => match SyscallCode::named(name@) {
                    None => fail(
                        self,
                        HirErrorKind::UndeclaredIdentifier { name: name@ },
                        code_span,
                    ),
                    Some(code) => match self.lower_all(
                        args,
                        1,
                        Arguments { exprs: seq![], types: seq![] },
                    ) {
                        (body, Err(error)) => (body, Err(error)),
                        (body, Ok(lowered)) => fine(
                            body.expr(
                                KindTree::Syscall { code, args: lowered.exprs },
                                match code {
                                    SyscallCode::Exit => Type::new(TypeKind::Never),
                                    SyscallCode::Write => return_type,
                                },
                                span,
                            ),
                        ),
                    },
                },
                other => fail(
                    self,
                    HirErrorKind::UndeclaredIdentifier { name: "<expression>"@ },
                    other.span(),
                ),
            }
        }
    }
}

/// A list of lowered expressions as contracts see it.
pub open spec fn seen_exprs<'hir>(
    result: Result<Vec<&'hir Expression<'hir>>, HirError<&'hir str>>,
) -> Outcome<Seq<ExprTree<'hir>>> {
    match result {
        Ok(exprs) => Ok(expr_trees(exprs@)),
        Err(error) => Err(error@),
    }
}

/// Lowered arguments as contracts see them.
pub open spec fn seen_arguments<'hir>(
    result: Result<(Vec<&'hir Expression<'hir>>, Vec<Type>), HirError<&'hir str>>,
) -> Outcome<Arguments<'hir>> {
    match result {
        Ok((exprs, types)) => Ok(Arguments { exprs: expr_trees(exprs@), types: types@ }),
        Err(error) => Err(error@),
    }
}

/// Lowered array elements as contracts see them.
pub open spec fn seen_elements<'hir>(
    result: Result<(Option<Type>, Vec<&'hir Expression<'hir>>), HirError<&'hir str>>,
) -> Outcome<(Option<Type>, Seq<ExprTree<'hir>>)> {
    match result {
        Ok((first, exprs)) => Ok((first, expr_trees(exprs@))),
        Err(error) => Err(error@),
    }
}

/// Lowered fields as contracts see them.
pub open spec fn seen_fields<'hir>(
    result: Result<
        (Vec<SymbolId>, Vec<(SymbolId, &'hir Expression<'hir>)>),
        HirError<&'hir str>,
    >,
) -> Outcome<(Seq<SymbolId>, Seq<(SymbolId, ExprTree<'hir>)>)> {
    match result {
        Ok((given, fields)) => Ok((given@, field_trees(fields@))),
        Err(error) => Err(error@),
    }
}

/// An optional lowered expression as contracts see it.
pub open spec fn seen_option<'hir>(
    result: Result<Option<Lowered<'hir>>, HirError<&'hir str>>,
) -> Outcome<Option<LoweredTree<'hir>>> {
    match result {
        Ok(Some(lowered)) => Ok(Some(lowered@)),
        Ok(None) => Ok(None),
        Err(error) => Err(error@),
    }
}

/// Adding an expression adds its tree.
proof fn lemma_push_expr<'hir>(exprs: Seq<&'hir Expression<'hir>>, expr: &'hir Expression<'hir>)
    ensures
        expr_trees(exprs.push(expr)) == expr_trees(exprs).push(expr_tree(*expr)),
{
    assert(expr_trees(exprs.push(expr)) =~= expr_trees(exprs).push(expr_tree(*expr)));
}

proof fn lemma_no_exprs<'hir>()
    ensures
        expr_trees(Seq::<&'hir Expression<'hir>>::empty()) == Seq::<ExprTree<'hir>>::empty(),
{
    assert(expr_trees(Seq::<&'hir Expression<'hir>>::empty()) =~= Seq::<ExprTree<'hir>>::empty());
}

impl<'hir> FunctionBuilder<'hir> {
    /// Lowers an expression with an optional type hint flowing downward.
    ///
    /// The hint settles the type of literals where the context knows it. Without one, floats
    /// are `f64` and the type of an integer is inferred from its uses.
    pub fn lower_expr(&mut self, expr: &'hir ast::Expression<'hir>, hint: Option<Type>) -> (outcome:
        Result<Lowered<'hir>, HirError<&'hir str>>)
        requires
            old(self).wf(),
        ensures
            final(self).wf(),
            (final(self)@, seen_expr(outcome)) == old(self)@.lower_expr(*expr, hint),
        decreases *expr, 0nat,
    {
        match expr {
            ast::Expression::Integer(value, span) => {
                let typ = match hint {
                    Some(typ) => if typ.is_number() || typ.is_infer() {
                        typ
                    } else {
                        self.infer.fresh()
                    },
                    None => self.infer.fresh(),
                };
                Ok(self.expr(ExpressionKind::Literal(Literal::Int(*value)), typ, *span))
            },
            ast::Expression::Float(bits, span) => {
                let typ = match hint {
                    Some(typ) => if typ.is_float() {
                        typ
                    } else {
                        Type::new(TypeKind::F64)
                    },
                    None => Type::new(TypeKind::F64),
                };
                Ok(self.expr(ExpressionKind::Literal(Literal::Float(*bits)), typ, *span))
            },
            ast::Expression::String(value, span) => {
                let symbol = self.insert(value);
                Ok(
                    self.expr(
                        ExpressionKind::Literal(Literal::Str(symbol)),
                        Type::new(TypeKind::Str),
                        *span,
                    ),
                )
            },
            ast::Expression::Char(value, span) => Ok(
                self.expr(
                    ExpressionKind::Literal(Literal::Char(*value)),
                    Type::new(TypeKind::Char),
                    *span,
                ),
            ),
            ast::Expression::Bool(value, span) => Ok(
                self.expr(
                    ExpressionKind::Literal(Literal::Bool(*value)),
                    Type::new(TypeKind::Bool),
                    *span,
                ),
            ),
            ast::Expression::Identifier(name, span) => self.lower_identifier(name, *span),
            ast::Expression::QualifiedName(expr) => self.lower_qualified_name(expr),
            ast::Expression::Cast(expr) => self.lower_cast(expr),
            ast::Expression::Unary(expr) => self.lower_unary(expr, hint),
            ast::Expression::Binary(expr) => self.lower_binary(expr, hint),
            ast::Expression::Assignment(expr) => self.lower_assignment(expr),
            ast::Expression::Struct(expr) => self.lower_struct_literal(expr),
            ast::Expression::Field(expr) => self.lower_field(expr),
            ast::Expression::Array(expr) => self.lower_array(expr, hint),
            ast::Expression::ArrayRepeat(expr) => self.lower_array_repeat(expr, hint),
            ast::Expression::Index(expr) => self.lower_index(expr),
            ast::Expression::Call(expr) => self.lower_call(expr),
            ast::Expression::QualifiedCall(expr) => self.lower_qualified_call(expr, hint),
            ast::Expression::TypeIntrinsic(expr) => self.lower_type_intrinsic(expr),
        }
    }

    fn lower_cast(&mut self, expr: &'hir ast::Cast<'hir>) -> (outcome: Result<
        Lowered<'hir>,
        HirError<&'hir str>,
    >)
        requires
            old(self).wf(),
        ensures
            final(self).wf(),
            (final(self)@, seen_expr(outcome)) == old(self)@.lower_cast(*expr),
        decreases *expr, 1nat,
    {
        let target = match self.resolve_type(&expr.target_type) {
            Err(error) => return Err(error),
            Ok(target) => target,
        };
        let inner = match self.lower_expr(expr.expr, None) {
            Err(error) => return Err(error),
            Ok(inner) => inner,
        };
        let src = self.infer.resolve_shallow(inner.typ);
        let is_enum = match src.kind() {
            TypeKind::Enum(_) => true,
            _ => false,
        };
        let castable = src.is_primitive_castable() || src.is_infer() || is_enum;
        if !castable || !target.is_primitive_castable() {
            return Err(HirError::new(HirErrorKind::InvalidCast { src, target }, expr.span));
        }
        Ok(self.expr(ExpressionKind::Cast { from: inner.expr, to: target }, target, expr.span))
    }

    fn lower_unary(&mut self, expr: &'hir ast::Unary<'hir>, hint: Option<Type>) -> (outcome: Result<
        Lowered<'hir>,
        HirError<&'hir str>,
    >)
        requires
            old(self).wf(),
        ensures
            final(self).wf(),
            (final(self)@, seen_expr(outcome)) == old(self)@.lower_unary(*expr, hint),
        decreases *expr, 1nat,
    {
        let operand = match self.lower_expr(expr.expr, hint_for_operand(expr.operator, hint)) {
            Err(error) => return Err(error),
            Ok(operand) => operand,
        };
        match self.type_for_unary(expr.operator, operand, hint) {
            Err(error) => Err(error),
            Ok(typ) => Ok(
                self.expr(
                    ExpressionKind::Unary { operator: expr.operator, expr: operand.expr },
                    typ,
                    expr.span,
                ),
            ),
        }
    }

    fn lower_binary(&mut self, expr: &'hir ast::Binary<'hir>, hint: Option<Type>) -> (outcome:
        Result<Lowered<'hir>, HirError<&'hir str>>)
        requires
            old(self).wf(),
        ensures
            final(self).wf(),
            (final(self)@, seen_expr(outcome)) == old(self)@.lower_binary(*expr, hint),
        decreases *expr, 1nat,
    {
        let left = match self.lower_expr(expr.left, hint) {
            Err(error) => return Err(error),
            Ok(left) => left,
        };
        let right_hint = self.right_hint(expr.operator, left.typ);
        let right = match self.lower_expr(expr.right, right_hint) {
            Err(error) => return Err(error),
            Ok(right) => right,
        };
        self.combine(expr.operator, left, right, expr.span)
    }

    fn combine(
        &mut self,
        operator: BinaryOperator,
        left: Lowered<'hir>,
        right: Lowered<'hir>,
        span: Span,
    ) -> (outcome: Result<Lowered<'hir>, HirError<&'hir str>>)
        requires
            old(self).wf(),
        ensures
            final(self).wf(),
            (final(self)@, seen_expr(outcome)) == old(self)@.combine(operator, left@, right@, span),
    {
        let receiver = left.typ.strip_reference();
        let nominal = match receiver.kind() {
            TypeKind::Struct(_) | TypeKind::Enum(_) => true,
            _ => false,
        };
        if let Some(method) = operator.overload_method() {
            if nominal {
                let symbol = self.insert(method);
                match get_pair(&self.scope.methods, member_key(receiver, symbol)) {
                    Some(function) => {
                        return Ok(
                            self.alloc_node(
                                ExpressionKind::Binary {
                                    operator,
                                    left: left.expr,
                                    right: right.expr,
                                },
                                Node {
                                    typ: Type::new(TypeKind::Bool),
                                    def: Some(Res::Function(function)),
                                    args: None,
                                    const_use: None,
                                },
                                span,
                            ),
                        );
                    },
                    None => {
                        let operand = self.nominal_text(receiver);
                        return Err(
                            HirError::new(
                                HirErrorKind::OperatorRequiresInterface {
                                    op: operator.symbol(),
                                    operand,
                                    required: operator.required_interface(),
                                },
                                span,
                            ),
                        );
                    },
                }
            }
        }
        match self.type_for_binary(operator, left.typ, right.typ, span) {
            Err(error) => Err(error),
            Ok(typ) => Ok(
                self.expr(
                    ExpressionKind::Binary { operator, left: left.expr, right: right.expr },
                    typ,
                    span,
                ),
            ),
        }
    }

    fn lower_assignment(&mut self, expr: &'hir ast::Assignment<'hir>) -> (outcome: Result<
        Lowered<'hir>,
        HirError<&'hir str>,
    >)
        requires
            old(self).wf(),
        ensures
            final(self).wf(),
            (final(self)@, seen_expr(outcome)) == old(self)@.lower_assignment(*expr),
        decreases *expr, 1nat,
    {
        let target = match self.lower_expr(expr.target, None) {
            Err(error) => return Err(error),
            Ok(target) => target,
        };
        if let Err(error) = self.check_assignable(target, expr.target.span(), expr.span) {
            return Err(error);
        }
        let value = match self.lower_expr(expr.value, Some(target.typ)) {
            Err(error) => return Err(error),
            Ok(value) => value,
        };
        if let Err(error) = self.assert_type(target.typ, value.typ, expr.span) {
            return Err(error);
        }
        Ok(
            self.expr(
                ExpressionKind::Assign { target: target.expr, value: value.expr },
                target.typ,
                expr.span,
            ),
        )
    }

    fn lower_struct_literal(&mut self, expr: &'hir ast::StructLiteral<'hir>) -> (outcome: Result<
        Lowered<'hir>,
        HirError<&'hir str>,
    >)
        requires
            old(self).wf(),
        ensures
            final(self).wf(),
            (final(self)@, seen_expr(outcome)) == old(self)@.lower_struct_literal(*expr),
        decreases *expr, 1nat,
    {
        let id = match self.literal_struct(expr) {
            Err(error) => return Err(error),
            Ok(id) => id,
        };
        let definition = match self.scope.structure(id) {
            None => {
                return Err(
                    HirError::new(HirErrorKind::UnknownType { name: expr.name }, expr.span),
                );
            },
            Some(definition) => definition,
        };
        let struct_name = self.scope.arena.place_str(self.scope.symbols.name(definition.name));
        let (given, fields) = match self.lower_fields(
            expr.fields,
            definition.fields,
            struct_name,
        ) {
            Err(error) => return Err(error),
            Ok(lowered) => lowered,
        };
        if let Some(missing) = find_missing(definition.fields, &given) {
            let field = self.scope.arena.place_str(self.scope.symbols.name(missing));
            return Err(
                HirError::new(HirErrorKind::MissingField { struct_name, field }, expr.span),
            );
        }
        let fields = self.scope.arena.place(fields);
        Ok(self.expr(ExpressionKind::Struct { id, fields }, Type::structure(id), expr.span))
    }

    fn lower_fields(
        &mut self,
        inits: &'hir Vec<ast::FieldInit<'hir>>,
        definition: &'hir [StructField],
        struct_name: &'hir str,
    ) -> (outcome: Result<
        (Vec<SymbolId>, Vec<(SymbolId, &'hir Expression<'hir>)>),
        HirError<&'hir str>,
    >)
        requires
            old(self).wf(),
        ensures
            final(self).wf(),
            (final(self)@, seen_fields(outcome)) == old(self)@.lower_fields(
                inits@,
                0,
                definition@,
                struct_name@,
                seq![],
                seq![],
            ),
        decreases inits@, inits@.len() + 1,
    {
        let mut given: Vec<SymbolId> = Vec::new();
        let mut lowered: Vec<(SymbolId, &'hir Expression<'hir>)> = Vec::new();
        assert(field_trees(lowered@) =~= seq![]);
        let mut i: usize = 0;
        while i < inits.len()
            invariant
                self.wf(),
                i <= inits@.len(),
                old(self)@.lower_fields(
                    inits@,
                    0,
                    definition@,
                    struct_name@,
                    seq![],
                    seq![],
                ) == self@.lower_fields(
                    inits@,
                    i as nat,
                    definition@,
                    struct_name@,
                    given@,
                    field_trees(lowered@),
                ),
            decreases inits@.len() - i,
        {
            let init = &inits[i];
            let symbol = self.insert(init.name);
            if contains_symbol(&given, symbol) {
                return Err(
                    HirError::new(HirErrorKind::DuplicateField { name: init.name }, init.span),
                );
            }
            let expected = match find_field(definition, symbol) {
                None => {
                    return Err(
                        HirError::new(
                            HirErrorKind::UnknownField { struct_name, field: init.name },
                            init.span,
                        ),
                    );
                },
                Some(expected) => expected,
            };
            match self.lower_checked(&init.value, expected) {
                Err(error) => {
                    return Err(error);
                },
                Ok(value) => {
                    let ghost before = lowered@;
                    given.push(symbol);
                    lowered.push((symbol, value.expr));
                    assert(field_trees(lowered@) =~= field_trees(before).push(
                        (symbol, expr_tree(*value.expr)),
                    ));
                },
            }
            i += 1;
        }
        Ok((given, lowered))
    }

    /// Lowers an expression that must have the given type.
    pub fn lower_checked(&mut self, expr: &'hir ast::Expression<'hir>, expected: Type) -> (outcome:
        Result<Lowered<'hir>, HirError<&'hir str>>)
        requires
            old(self).wf(),
        ensures
            final(self).wf(),
            (final(self)@, seen_expr(outcome)) == old(self)@.lower_checked(*expr, expected),
        decreases *expr, 1nat,
    {
        let value = match self.lower_expr(expr, Some(expected)) {
            Err(error) => return Err(error),
            Ok(value) => value,
        };
        match self.assert_type(expected, value.typ, value.span) {
            Err(error) => Err(error),
            Ok(_) => Ok(value),
        }
    }

    fn lower_field(&mut self, expr: &'hir ast::FieldAccess<'hir>) -> (outcome: Result<
        Lowered<'hir>,
        HirError<&'hir str>,
    >)
        requires
            old(self).wf(),
        ensures
            final(self).wf(),
            (final(self)@, seen_expr(outcome)) == old(self)@.lower_field(*expr),
        decreases *expr, 1nat,
    {
        let base = match self.lower_expr(expr.expr, None) {
            Err(error) => return Err(error),
            Ok(base) => base,
        };
        let is_place = match base.expr.kind {
            ExpressionKind::Local(_) => true,
            ExpressionKind::Field { .. } => true,
            _ => false,
        };
        if !is_place {
            return Err(HirError::new(HirErrorKind::InvalidFieldAccess, expr.span));
        }
        match self.lookup_field(base.typ, expr.field, expr.span) {
            Err(error) => Err(error),
            Ok((field, typ)) => Ok(
                self.expr(ExpressionKind::Field { base: base.expr, field }, typ, expr.span),
            ),
        }
    }

    fn lower_array(&mut self, expr: &'hir ast::ArrayLiteral<'hir>, hint: Option<Type>) -> (outcome:
        Result<Lowered<'hir>, HirError<&'hir str>>)
        requires
            old(self).wf(),
        ensures
            final(self).wf(),
            (final(self)@, seen_expr(outcome)) == old(self)@.lower_array(*expr, hint),
        decreases *expr, 1nat,
    {
        let element_hint = match hint {
            Some(typ) => self.element_type(typ),
            None => None,
        };
        let (first, elements) = match self.lower_elements(expr.elements, element_hint) {
            Err(error) => return Err(error),
            Ok(lowered) => lowered,
        };
        let element = match first {
            Some(typ) => Some(typ),
            None => element_hint,
        };
        let element = match element {
            None => return Err(HirError::new(HirErrorKind::EmptyArrayType, expr.span)),
            Some(element) => element,
        };
        let elements = self.scope.arena.place(elements);
        let len: u32 = #[verifier::truncate] (expr.elements.len() as u32);
        Ok(self.array_expr(ExpressionKind::Array { elements }, element, len, expr.span))
    }

    fn array_expr(&mut self, kind: ExpressionKind<'hir>, element: Type, len: u32, span: Span) -> (lowered:
        Lowered<'hir>)
        requires
            old(self).wf(),
        ensures
            final(self).wf(),
            (final(self)@, Ok::<LoweredTree<'hir>, HirError<Seq<char>>>(lowered@))
                == old(self)@.array_expr(kind_tree(kind), element, len, span),
    {
        let element = self.infer.resolve_shallow(element);
        let id = self.scope.arrays.intern(element, len);
        self.expr(kind, Type::array(id), span)
    }

    fn lower_elements(
        &mut self,
        elements: &'hir Vec<ast::Expression<'hir>>,
        hint: Option<Type>,
    ) -> (outcome: Result<(Option<Type>, Vec<&'hir Expression<'hir>>), HirError<&'hir str>>)
        requires
            old(self).wf(),
        ensures
            final(self).wf(),
            (final(self)@, seen_elements(outcome)) == old(self)@.lower_elements(
                elements@,
                0,
                None,
                hint,
                seq![],
            ),
        decreases elements@, elements@.len() + 1,
    {
        let mut first: Option<Type> = None;
        let mut lowered: Vec<&'hir Expression<'hir>> = Vec::new();
        proof {
            lemma_no_exprs();
        }
        let mut i: usize = 0;
        while i < elements.len()
            invariant
                self.wf(),
                i <= elements@.len(),
                old(self)@.lower_elements(elements@, 0, None, hint, seq![]) == self@.lower_elements(
                    elements@,
                    i as nat,
                    first,
                    hint,
                    expr_trees(lowered@),
                ),
            decreases elements@.len() - i,
        {
            let expected = match first {
                Some(typ) => Some(typ),
                None => hint,
            };
            let value = match self.lower_expr(&elements[i], expected) {
                Err(error) => {
                    return Err(error);
                },
                Ok(value) => value,
            };
            let element = match first {
                Some(typ) => typ,
                None => value.typ,
            };
            if let Err(error) = self.assert_type(element, value.typ, value.span) {
                return Err(error);
            }
            proof {
                lemma_push_expr(lowered@, value.expr);
            }
            first = Some(element);
            lowered.push(value.expr);
            i += 1;
        }
        Ok((first, lowered))
    }

    fn lower_array_repeat(&mut self, expr: &'hir ast::ArrayRepeat<'hir>, hint: Option<Type>) -> (outcome:
        Result<Lowered<'hir>, HirError<&'hir str>>)
        requires
            old(self).wf(),
        ensures
            final(self).wf(),
            (final(self)@, seen_expr(outcome)) == old(self)@.lower_array_repeat(*expr, hint),
        decreases *expr, 1nat,
    {
        let element_hint = match hint {
            Some(typ) => self.element_type(typ),
            None => None,
        };
        match self.lower_expr(expr.value, element_hint) {
            Err(error) => Err(error),
            Ok(value) => {
                let count: u32 = #[verifier::truncate] (expr.count as u32);
                Ok(
                    self.array_expr(
                        ExpressionKind::ArrayRepeat { value: value.expr, count },
                        value.typ,
                        count,
                        expr.span,
                    ),
                )
            },
        }
    }

    fn lower_index(&mut self, expr: &'hir ast::IndexAccess<'hir>) -> (outcome: Result<
        Lowered<'hir>,
        HirError<&'hir str>,
    >)
        requires
            old(self).wf(),
        ensures
            final(self).wf(),
            (final(self)@, seen_expr(outcome)) == old(self)@.lower_index(*expr),
        decreases *expr, 1nat,
    {
        let base = match self.lower_expr(expr.base, None) {
            Err(error) => return Err(error),
            Ok(base) => base,
        };
        let element = match self.element_type(base.typ) {
            None => {
                return Err(HirError::new(HirErrorKind::NotIndexable { typ: base.typ }, expr.span));
            },
            Some(element) => element,
        };
        match self.lower_expr(expr.index, Some(Type::new(TypeKind::Uptr))) {
            Err(error) => Err(error),
            Ok(index) => self.index_expr(base, index, element, expr.span),
        }
    }

    fn index_expr(
        &mut self,
        base: Lowered<'hir>,
        index: Lowered<'hir>,
        element: Type,
        span: Span,
    ) -> (outcome: Result<Lowered<'hir>, HirError<&'hir str>>)
        requires
            old(self).wf(),
        ensures
            final(self).wf(),
            (final(self)@, seen_expr(outcome)) == old(self)@.index_expr(base@, index@, element, span),
    {
        let uptr = Type::new(TypeKind::Uptr);
        let known = self.infer.resolve_shallow(index.typ);
        if known.is_infer() {
            let _ = self.infer.unify(uptr, known);
        }
        let known = self.infer.resolve_shallow(known);
        if !known.is_integer() {
            return Err(mismatch_error(uptr, known, index.span));
        }
        if let Some((index, len)) = self.out_of_bounds(base.typ, &index.expr.kind) {
            return Err(HirError::new(HirErrorKind::IndexOutOfBounds { index, len }, span));
        }
        Ok(
            self.expr(
                ExpressionKind::Index { base: base.expr, index: index.expr },
                element,
                span,
            ),
        )
    }

    fn out_of_bounds(&self, base: Type, index: &ExpressionKind<'hir>) -> (bad: Option<(u64, u32)>)
        ensures
            bad == self@.out_of_bounds(base, kind_tree(*index)),
    {
        match (base.kind(), index) {
            (TypeKind::Array(id), ExpressionKind::Literal(Literal::Int(k))) =>
                match self.scope.arrays.find(id) {
                    Some(array) => if *k < 0 || *k >= array.len as i64 {
                        Some((#[verifier::truncate] (*k as u64), array.len))
                    } else {
                        None
                    },
                    None => None,
                },
            _ => None,
        }
    }

    fn lower_all(&mut self, args: &'hir Vec<ast::Expression<'hir>>, from: usize) -> (outcome: Result<
        (Vec<&'hir Expression<'hir>>, Vec<Type>),
        HirError<&'hir str>,
    >)
        requires
            old(self).wf(),
            from <= args@.len(),
        ensures
            final(self).wf(),
            (final(self)@, seen_arguments(outcome)) == old(self)@.lower_all(
                args@,
                from as nat,
                (Arguments { exprs: seq![], types: seq![] }),
            ),
        decreases args@, args@.len() + 1,
    {
        let mut exprs: Vec<&'hir Expression<'hir>> = Vec::new();
        let mut types: Vec<Type> = Vec::new();
        proof {
            lemma_no_exprs();
        }
        let mut i: usize = from;
        while i < args.len()
            invariant
                self.wf(),
                from <= i <= args@.len(),
                old(self)@.lower_all(
                    args@,
                    from as nat,
                    (Arguments { exprs: seq![], types: seq![] }),
                ) == self@.lower_all(
                    args@,
                    i as nat,
                    (Arguments { exprs: expr_trees(exprs@), types: types@ }),
                ),
            decreases args@.len() - i,
        {
            match self.lower_expr(&args[i], None) {
                Err(error) => {
                    return Err(error);
                },
                Ok(arg) => {
                    proof {
                        lemma_push_expr(exprs@, arg.expr);
                    }
                    exprs.push(arg.expr);
                    types.push(arg.typ);
                },
            }
            i += 1;
        }
        Ok((exprs, types))
    }

    fn lower_args(&mut self, args: &'hir Vec<ast::Expression<'hir>>, params: &'hir [Type]) -> (outcome:
        Result<Vec<&'hir Expression<'hir>>, HirError<&'hir str>>)
        requires
            old(self).wf(),
        ensures
            final(self).wf(),
            (final(self)@, seen_exprs(outcome)) == old(self)@.lower_args(
                args@,
                0,
                params@,
                seq![],
            ),
        decreases args@, args@.len() + 1,
    {
        let mut exprs: Vec<&'hir Expression<'hir>> = Vec::new();
        proof {
            lemma_no_exprs();
        }
        let mut i: usize = 0;
        while i < args.len() && i < params.len()
            invariant
                self.wf(),
                i <= args@.len(),
                i <= params@.len(),
                old(self)@.lower_args(args@, 0, params@, seq![]) == self@.lower_args(
                    args@,
                    i as nat,
                    params@,
                    expr_trees(exprs@),
                ),
            decreases args@.len() - i,
        {
            match self.lower_checked(&args[i], params[i]) {
                Err(error) => {
                    return Err(error);
                },
                Ok(arg) => {
                    proof {
                        lemma_push_expr(exprs@, arg.expr);
                    }
                    exprs.push(arg.expr);
                },
            }
            i += 1;
        }
        Ok(exprs)
    }

    fn lower_call(&mut self, expr: &'hir ast::Call<'hir>) -> (outcome: Result<
        Lowered<'hir>,
        HirError<&'hir str>,
    >)
        requires
            old(self).wf(),
        ensures
            final(self).wf(),
            (final(self)@, seen_expr(outcome)) == old(self)@.lower_call(*expr),
        decreases *expr, 3nat,
    {
        match expr.callee {
            ast::Expression::Field(callee) => self.lower_method_call(expr, callee),
            ast::Expression::Identifier(name, _) => match self.scope.resolve_function_call(
                None,
                name,
            ) {
                None => Err(HirError::new(HirErrorKind::UnknownFunction { name }, expr.span)),
                Some(id) => self.lower_function_call(id, expr.args, expr.type_args, expr.span),
            },
            _ => Err(
                HirError::new(HirErrorKind::UnknownFunction { name: "<expression>" }, expr.span),
            ),
        }
    }

    fn lower_method_call(
        &mut self,
        expr: &'hir ast::Call<'hir>,
        callee: &'hir ast::FieldAccess<'hir>,
    ) -> (outcome: Result<Lowered<'hir>, HirError<&'hir str>>)
        requires
            old(self).wf(),
            *expr.callee == ast::Expression::Field(*callee),
        ensures
            final(self).wf(),
            (final(self)@, seen_expr(outcome)) == old(self)@.lower_method_call(*expr, *callee),
        decreases *expr, 2nat,
    {
        proof {
            assert(decreases_to!(*expr => *expr.callee));
            assert(decreases_to!(*expr.callee => (*expr.callee)->Field_0));
            assert(decreases_to!(*callee => *callee.expr));
        }
        let receiver = match self.lower_expr(callee.expr, None) {
            Err(error) => return Err(error),
            Ok(receiver) => receiver,
        };
        let base_type = receiver.typ.strip_reference();
        let method = self.insert(callee.field);
        let owner = match self.method_owner(base_type, receiver.span) {
            Err(error) => return Err(error),
            Ok(owner) => owner,
        };
        let found = match get_pair(&self.scope.methods, member_key(owner, method)) {
            Some(function) => match self.scope.signature(function) {
                Some(signature) => Some((function, signature)),
                None => None,
            },
            None => None,
        };
        let (function, signature) = match found {
            None => {
                let struct_name = self.nominal_text(base_type);
                return Err(
                    HirError::new(
                        HirErrorKind::UnknownMethod { struct_name, name: callee.field },
                        expr.span,
                    ),
                );
            },
            Some(found) => found,
        };
        if let FunctionKind::Intrinsic(intrinsic) = signature.kind {
            let arg = self.coerce_method_receiver(receiver, owner);
            let mut args: Vec<&'hir Expression<'hir>> = Vec::new();
            args.push(arg);
            assert(expr_trees(args@) =~= seq![expr_tree(*arg)]);
            let args = self.scope.arena.place(args);
            return Ok(
                self.expr(
                    ExpressionKind::IntrinsicCall { intrinsic, args },
                    signature.return_type,
                    expr.span,
                ),
            );
        }
        self.lower_method_args(expr, callee.field, receiver, method, function, signature)
    }

    fn lower_method_args(
        &mut self,
        expr: &'hir ast::Call<'hir>,
        name: &'hir str,
        receiver: Lowered<'hir>,
        method: SymbolId,
        function: FunctionId,
        signature: FunctionSignature<'hir>,
    ) -> (outcome: Result<Lowered<'hir>, HirError<&'hir str>>)
        requires
            old(self).wf(),
        ensures
            final(self).wf(),
            (final(self)@, seen_expr(outcome)) == old(self)@.lower_method_args(
                *expr,
                name@,
                receiver@,
                method,
                function,
                signature,
            ),
        decreases *expr, 1nat,
    {
        let base = place_base_local(receiver.expr);
        let writable = match receiver.typ.kind() {
            TypeKind::Ref { mutable: true, .. } => true,
            _ => match base {
                Some(id) => self.local_mutable(id),
                None => false,
            },
        };
        let params = signature.explicit_params();
        if signature.receiver_mutable() && !writable {
            let name: &'hir str = match base {
                Some(id) => self.local_name(id),
                None => "temporary",
            };
            return Err(HirError::new(HirErrorKind::ImmutableBind { name }, expr.span));
        }
        if params.len() != expr.args.len() {
            return Err(
                HirError::new(
                    HirErrorKind::ArityMismatch {
                        name,
                        expected: params.len(),
                        found: expr.args.len(),
                    },
                    expr.span,
                ),
            );
        }
        let args = match self.lower_args(expr.args, params) {
            Err(error) => return Err(error),
            Ok(args) => args,
        };
        let generic = match self.turbofish(expr.type_args) {
            Err(error) => return Err(error),
            Ok(generic) => generic,
        };
        let generic_args = self.place_generic(&generic);
        let args = self.scope.arena.place(args);
        Ok(
            self.alloc_node(
                ExpressionKind::MethodCall { name: method, receiver: receiver.expr, args },
                Node {
                    typ: signature.return_type,
                    def: Some(Res::Function(function)),
                    args: generic_args,
                    const_use: None,
                },
                expr.span,
            ),
        )
    }

    /// Generic arguments in the arena, if there are any.
    fn place_generic(&self, generic: &Vec<Type>) -> (args: Option<&'hir [Type]>)
        ensures
            args == (if generic@.len() > 0 {
                Some(slice_of::<Type>(generic@))
            } else {
                None
            }),
    {
        if generic.len() > 0 {
            Some(self.scope.arena.place_slice(generic))
        } else {
            None
        }
    }

    fn lower_qualified_call(
        &mut self,
        expr: &'hir ast::QualifiedCall<'hir>,
        hint: Option<Type>,
    ) -> (outcome: Result<Lowered<'hir>, HirError<&'hir str>>)
        requires
            old(self).wf(),
        ensures
            final(self).wf(),
            (final(self)@, seen_expr(outcome)) == old(self)@.lower_qualified_call(*expr, hint),
        decreases *expr, 3nat,
    {
        match self.lower_variant(expr, hint) {
            Err(error) => return Err(error),
            Ok(Some(lowered)) => return Ok(lowered),
            Ok(None) => {},
        }
        match self.scope.resolve_function_call(Some(expr.qualifier), expr.name) {
            None => {
                let name = qualified(self.scope.arena, expr.qualifier, expr.name);
                Err(HirError::new(HirErrorKind::UnknownFunction { name }, expr.span))
            },
            Some(id) => self.lower_function_call(id, expr.args, expr.type_args, expr.span),
        }
    }

    fn lower_variant(&mut self, expr: &'hir ast::QualifiedCall<'hir>, hint: Option<Type>) -> (outcome:
        Result<Option<Lowered<'hir>>, HirError<&'hir str>>)
        requires
            old(self).wf(),
        ensures
            final(self).wf(),
            (final(self)@, seen_option(outcome)) == old(self)@.lower_variant(*expr, hint),
        decreases *expr, 2nat,
    {
        let owner = self.insert(expr.qualifier);
        let id = match self.resolve_enum_id(expr, owner, hint) {
            Err(error) => return Err(error),
            Ok(None) => return Ok(None),
            Ok(Some(id)) => id,
        };
        let variant = self.insert(expr.name);
        let definition = match self.scope.enumeration(id) {
            None => return Ok(None),
            Some(definition) => definition,
        };
        let index: usize = match find_variant(definition.variants, variant) {
            None => return Ok(None),
            Some(index) => index,
        };
        let args = match self.lower_payload(expr, definition.variants[index].payload) {
            Err(error) => return Err(error),
            Ok(args) => args,
        };
        Ok(
            Some(
                self.call_expr(
                    variant,
                    args,
                    Type::enumerable(id),
                    Res::Variant { id, index },
                    None,
                    expr.span,
                ),
            ),
        )
    }

    fn lower_payload(&mut self, expr: &'hir ast::QualifiedCall<'hir>, payload: Option<Type>) -> (outcome:
        Result<Vec<&'hir Expression<'hir>>, HirError<&'hir str>>)
        requires
            old(self).wf(),
        ensures
            final(self).wf(),
            (final(self)@, seen_exprs(outcome)) == old(self)@.lower_payload(*expr, payload),
        decreases *expr, 1nat,
    {
        let mut args: Vec<&'hir Expression<'hir>> = Vec::new();
        proof {
            lemma_no_exprs();
        }
        match payload {
            Some(expected) => {
                if expr.args.len() == 0 {
                    return Err(
                        HirError::new(
                            HirErrorKind::ArityMismatch {
                                name: expr.name,
                                expected: 1,
                                found: 0,
                            },
                            expr.span,
                        ),
                    );
                }
                let value = match self.lower_checked(&expr.args[0], expected) {
                    Err(error) => return Err(error),
                    Ok(value) => value,
                };
                args.push(value.expr);
                assert(expr_trees(args@) =~= seq![expr_tree(*value.expr)]);
            },
            None => {
                if expr.args.len() > 0 {
                    return Err(
                        HirError::new(
                            HirErrorKind::ArityMismatch {
                                name: expr.name,
                                expected: 0,
                                found: expr.args.len(),
                            },
                            expr.span,
                        ),
                    );
                }
            },
        }
        Ok(args)
    }

    fn lower_function_call(
        &mut self,
        id: FunctionId,
        args: &'hir Vec<ast::Expression<'hir>>,
        type_args: &'hir Vec<Spanned<ast::Type<'hir>>>,
        span: Span,
    ) -> (outcome: Result<Lowered<'hir>, HirError<&'hir str>>)
        requires
            old(self).wf(),
        ensures
            final(self).wf(),
            (final(self)@, seen_expr(outcome)) == old(self)@.lower_function_call(
                id,
                args@,
                type_args@,
                span,
            ),
        decreases args@, args@.len() + 4,
    {
        let signature = match self.scope.signature(id) {
            None => {
                proof {
                    reveal_strlit("");
                    assert(""@ =~= Seq::<char>::empty());
                }
                return Err(HirError::new(HirErrorKind::UnknownFunction { name: "" }, span));
            },
            Some(signature) => signature,
        };
        match get_id(&self.scope.generic_fns, id.0) {
            Some(template) => self.lower_generic_call(
                id,
                signature,
                template,
                args,
                type_args,
                span,
            ),
            None => self.lower_direct_call(id, signature, args, type_args, span),
        }
    }

    fn lower_direct_call(
        &mut self,
        id: FunctionId,
        signature: FunctionSignature<'hir>,
        args: &'hir Vec<ast::Expression<'hir>>,
        type_args: &'hir Vec<Spanned<ast::Type<'hir>>>,
        span: Span,
    ) -> (outcome: Result<Lowered<'hir>, HirError<&'hir str>>)
        requires
            old(self).wf(),
        ensures
            final(self).wf(),
            (final(self)@, seen_expr(outcome)) == old(self)@.lower_direct_call(
                id,
                signature,
                args@,
                type_args@,
                span,
            ),
        decreases args@, args@.len() + 3,
    {
        match signature.kind {
            FunctionKind::Intrinsic(Intrinsic::Syscall) => {
                return self.lower_syscall(args, signature.return_type, span);
            },
            FunctionKind::Intrinsic(intrinsic) => {
                let (lowered, _) = match self.lower_all(args, 0) {
                    Err(error) => return Err(error),
                    Ok(lowered) => lowered,
                };
                let lowered = self.scope.arena.place(lowered);
                return Ok(
                    self.expr(
                        ExpressionKind::IntrinsicCall { intrinsic, args: lowered },
                        signature.return_type,
                        span,
                    ),
                );
            },
            _ => {},
        }
        if self.is_const && !signature.is_const {
            let name = self.scope.arena.place_str(self.scope.symbols.name(signature.name));
            return Err(
                HirError::new(
                    HirErrorKind::ConstFnViolation(ConstFnViolationKind::NonConstCall { name }),
                    span,
                ),
            );
        }
        if signature.params.len() != args.len() {
            let name = self.scope.arena.place_str(self.scope.symbols.name(signature.name));
            return Err(
                HirError::new(
                    HirErrorKind::ArityMismatch {
                        name,
                        expected: signature.params.len(),
                        found: args.len(),
                    },
                    span,
                ),
            );
        }
        let lowered = match self.lower_args(args, signature.params) {
            Err(error) => return Err(error),
            Ok(lowered) => lowered,
        };
        let callee = self.callee_expr(signature.name, span);
        let generic = match self.turbofish(type_args) {
            Err(error) => return Err(error),
            Ok(generic) => generic,
        };
        let generic_args = self.place_generic(&generic);
        Ok(
            self.call_of(
                callee.expr,
                lowered,
                signature.return_type,
                Res::Function(id),
                generic_args,
                span,
            ),
        )
    }

    fn lower_generic_call(
        &mut self,
        id: FunctionId,
        signature: FunctionSignature<'hir>,
        template: &'hir ast::Function<'hir>,
        args: &'hir Vec<ast::Expression<'hir>>,
        type_args: &'hir Vec<Spanned<ast::Type<'hir>>>,
        span: Span,
    ) -> (outcome: Result<Lowered<'hir>, HirError<&'hir str>>)
        requires
            old(self).wf(),
        ensures
            final(self).wf(),
            (final(self)@, seen_expr(outcome)) == old(self)@.lower_generic_call(
                id,
                signature,
                *template,
                args@,
                type_args@,
                span,
            ),
        decreases args@, args@.len() + 3,
    {
        if signature.params.len() != args.len() {
            let name = self.scope.arena.place_str(self.scope.symbols.name(signature.name));
            return Err(
                HirError::new(
                    HirErrorKind::ArityMismatch {
                        name,
                        expected: signature.params.len(),
                        found: args.len(),
                    },
                    span,
                ),
            );
        }
        let (lowered, types) = match self.lower_all(args, 0) {
            Err(error) => return Err(error),
            Ok(lowered) => lowered,
        };
        let generic = if type_args.len() > 0 {
            match self.turbofish(type_args) {
                Err(error) => return Err(error),
                Ok(generic) => generic,
            }
        } else {
            infer_type_args(signature.params, &types, template.generics.len())
        };
        if let Err(error) = self.scope.check_bounds(
            template.generics,
            generic.as_slice(),
            Some(self.generics),
            span,
        ) {
            return Err(error);
        }
        let return_type = signature.return_type.subst(generic.as_slice());
        let generic_args = self.scope.arena.place_slice(&generic);
        Ok(
            self.call_expr(
                signature.name,
                lowered,
                return_type,
                Res::Function(id),
                Some(generic_args),
                span,
            ),
        )
    }

    fn lower_syscall(
        &mut self,
        args: &'hir Vec<ast::Expression<'hir>>,
        return_type: Type,
        span: Span,
    ) -> (outcome: Result<Lowered<'hir>, HirError<&'hir str>>)
        requires
            old(self).wf(),
        ensures
            final(self).wf(),
            (final(self)@, seen_expr(outcome)) == old(self)@.lower_syscall(
                args@,
                return_type,
                span,
            ),
        decreases args@, args@.len() + 2,
    {
        if !self.scope.in_std {
            return Err(HirError::new(HirErrorKind::UnknownFunction { name: "syscall" }, span));
        }
        if args.len() == 0 {
            return Err(
                HirError::new(
                    HirErrorKind::ArityMismatch { name: "syscall", expected: 1, found: 0 },
                    span,
                ),
            );
        }
        if args.len() > 7 {
            return Err(
                HirError::new(
                    HirErrorKind::ArityMismatch {
                        name: "syscall",
                        expected: 7,
                        found: args.len(),
                    },
                    span,
                ),
            );
        }
        let (name, code_span) = match &args[0] {
            ast::Expression::Identifier(name, code_span) => (*name, *code_span),
            other => {
                return Err(
                    HirError::new(
                        HirErrorKind::UndeclaredIdentifier { name: "<expression>" },
                        other.span(),
                    ),
                );
            },
        };
        let code = match SyscallCode::from_name(name) {
            None => {
                return Err(HirError::new(HirErrorKind::UndeclaredIdentifier { name }, code_span));
            },
            Some(code) => code,
        };
        let (lowered, _) = match self.lower_all(args, 1) {
            Err(error) => return Err(error),
            Ok(lowered) => lowered,
        };
        let typ = match code {
            SyscallCode::Exit => Type::new(TypeKind::Never),
            SyscallCode::Write => return_type,
        };
        let lowered = self.scope.arena.place(lowered);
        Ok(self.expr(ExpressionKind::Syscall { code, args: lowered }, typ, span))
    }
}

} // verus!
