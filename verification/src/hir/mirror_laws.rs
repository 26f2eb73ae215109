//! Lowering keeps what a program says: every part of the source stands in the lowered tree, once, in
//! its place and in its order.

use crate::ast;
use crate::ast::{Span, Spanned};
use crate::hir::body::{Body, LoweredTree};
use crate::hir::expr::Arguments;
use crate::hir::scope::Outcome;
use crate::hir::symbols::SymbolId;
use crate::hir::tree::{
    ArmTree, BlockTree, ExprTree, FunctionId, FunctionKind, Intrinsic, KindTree, Literal, LoopTree,
    PatternKindTree, PatternTree, StatementTree, StructField, SyscallCode,
};
use crate::hir::types::{Type, TypeKind};
use vstd::prelude::*;

verus! {

/// Whether a tree says what an expression says.
pub open spec fn mirrors<'s, 'h>(source: ast::Expression<'s>, tree: ExprTree<'h>) -> bool
    decreases source, 0nat,
{
    &&& tree.span == source.span()
    &&& match (source, tree.kind) {
        (ast::Expression::Integer(a, _), KindTree::Literal(Literal::Int(b))) => a == b,
        (ast::Expression::Float(a, _), KindTree::Literal(Literal::Float(b))) => a == b,
        (ast::Expression::Char(a, _), KindTree::Literal(Literal::Char(b))) => a == b,
        (ast::Expression::Bool(a, _), KindTree::Literal(Literal::Bool(b))) => a == b,
        (ast::Expression::String(..), KindTree::Literal(Literal::Str(_))) => true,
        (ast::Expression::Identifier(..), KindTree::Local(_)) => true,
        (ast::Expression::Identifier(..), KindTree::Const(_)) => true,
        (ast::Expression::QualifiedName(_), KindTree::Literal(Literal::Int(_))) => true,
        (ast::Expression::QualifiedName(_), KindTree::Const(_)) => true,
        (ast::Expression::Cast(a), KindTree::Cast { from, .. }) => mirrors(*a.expr, *from),
        (ast::Expression::Unary(a), KindTree::Unary { operator, expr }) => a.operator == operator
            && mirrors(*a.expr, *expr),
        (ast::Expression::Binary(a), KindTree::Binary { operator, left, right }) => a.operator
            == operator && mirrors(*a.left, *left) && mirrors(*a.right, *right),
        (ast::Expression::Assignment(a), KindTree::Assign { target, value }) => mirrors(
            *a.target,
            *target,
        ) && mirrors(*a.value, *value),
        (ast::Expression::Struct(a), KindTree::Struct { fields, .. }) => mirror_fields(
            a.fields@,
            fields,
        ),
        (ast::Expression::Field(a), KindTree::Field { base, .. }) => mirrors(*a.expr, *base),
        (ast::Expression::Array(a), KindTree::Array { elements }) => mirror_list(
            a.elements@,
            elements,
        ),
        (ast::Expression::ArrayRepeat(a), KindTree::ArrayRepeat { value, count }) => mirrors(
            *a.value,
            *value,
        ) && count == a.count as u32,
        (ast::Expression::Index(a), KindTree::Index { base, index }) => mirrors(*a.base, *base)
            && mirrors(*a.index, *index),
        (ast::Expression::TypeIntrinsic(a), KindTree::TypeIntrinsic { kind, .. }) => a.kind == kind,
        (ast::Expression::QualifiedCall(a), KindTree::Call { callee, args }) => callee.kind is Path
            && (mirror_list(a.args@, args) || (args.len() == 1 && mirror_start(a.args@, args))),
        (ast::Expression::QualifiedCall(a), kind) => mirror_built_in(a.args@, kind),
        (ast::Expression::Call(a), kind) => match *a.callee {
            ast::Expression::Field(callee) => match kind {
                KindTree::MethodCall { receiver, args, .. } => mirrors(*callee.expr, *receiver)
                    && mirror_list(a.args@, args),
                KindTree::IntrinsicCall { args, .. } => args.len() == 1 && (mirrors(
                    *callee.expr,
                    args[0],
                ) || match args[0].kind {
                    KindTree::Unary { operator, expr } => operator is Ref && mirrors(
                        *callee.expr,
                        *expr,
                    ),
                    _ => false,
                }),
                _ => false,
            },
            ast::Expression::Identifier(..) => match kind {
                KindTree::Call { callee, args } => callee.kind is Path && mirror_list(
                    a.args@,
                    args,
                ),
                _ => mirror_built_in(a.args@, kind),
            },
            _ => false,
        },
        _ => false,
    }
}

/// Whether trees say what expressions say, one by one and in order.
pub open spec fn mirror_list<'s, 'h>(
    sources: Seq<ast::Expression<'s>>,
    trees: Seq<ExprTree<'h>>,
) -> bool
    decreases sources, 0nat,
{
    &&& trees.len() == sources.len()
    &&& forall|i: int| 0 <= i < sources.len() ==> mirrors(sources[i], #[trigger] trees[i])
}

/// The same of the first expression alone.
pub open spec fn mirror_start<'s, 'h>(
    sources: Seq<ast::Expression<'s>>,
    trees: Seq<ExprTree<'h>>,
) -> bool
    decreases sources, 0nat,
{
    sources.len() > 0 && trees.len() > 0 && mirrors(sources[0], trees[0])
}

pub open spec fn mirror_fields<'s, 'h>(
    sources: Seq<ast::FieldInit<'s>>,
    trees: Seq<(SymbolId, ExprTree<'h>)>,
) -> bool
    decreases sources, 0nat,
{
    &&& trees.len() == sources.len()
    &&& forall|i: int| 0 <= i < sources.len() ==> mirrors(sources[i].value, (#[trigger] trees[i]).1)
}

/// Whether a call of what is built in has the given arguments. The first one of a system call names
/// it.
pub open spec fn mirror_built_in<'s, 'h>(
    sources: Seq<ast::Expression<'s>>,
    kind: KindTree<'h>,
) -> bool
    decreases sources, 1nat,
{
    match kind {
        KindTree::IntrinsicCall { args, .. } => mirror_list(sources, args),
        KindTree::Syscall { code, args } => {
            &&& sources.len() == args.len() + 1
            &&& match sources[0] {
                ast::Expression::Identifier(name, _) => match code {
                    SyscallCode::Write => name@ == "SYS_WRITE"@,
                    SyscallCode::Exit => name@ == "SYS_EXIT"@,
                },
                _ => false,
            }
            &&& forall|i: int|
                1 <= i < sources.len() ==> mirrors(sources[i], #[trigger] args[i - 1])
        },
        _ => false,
    }
}

/// Whether the trees of the expressions from `shift` to before `end` say what these say.
spec fn mirror_part<'s, 'h>(
    sources: Seq<ast::Expression<'s>>,
    trees: Seq<ExprTree<'h>>,
    shift: int,
    end: int,
) -> bool {
    &&& trees.len() == end - shift
    &&& forall|i: int| shift <= i < end ==> mirrors(sources[i], #[trigger] trees[i - shift])
}

proof fn lemma_part_push<'s, 'h>(
    sources: Seq<ast::Expression<'s>>,
    trees: Seq<ExprTree<'h>>,
    shift: int,
    end: int,
    tree: ExprTree<'h>,
)
    requires
        shift <= end,
        mirror_part(sources, trees, shift, end),
        mirrors(sources[end], tree),
    ensures
        mirror_part(sources, trees.push(tree), shift, end + 1),
{
    let more = trees.push(tree);
    assert forall|i: int| shift <= i < end + 1 implies mirrors(
        sources[i],
        #[trigger] more[i - shift],
    ) by {
        if i < end {
            assert(more[i - shift] == trees[i - shift]);
        }
    }
}

proof fn lemma_part_all<'s, 'h>(sources: Seq<ast::Expression<'s>>, trees: Seq<ExprTree<'h>>)
    requires
        mirror_part(sources, trees, 0, sources.len() as int),
    ensures
        mirror_list(sources, trees),
{
    assert forall|i: int| 0 <= i < sources.len() implies mirrors(sources[i], #[trigger] trees[i]) by {
        assert(mirrors(sources[i], trees[i - 0]));
    }
}

/// Whether an outcome is no tree, or one that says what an expression says.
spec fn said<'s, 'h>(source: ast::Expression<'s>, outcome: Outcome<LoweredTree<'h>>) -> bool {
    outcome matches Ok(value) ==> mirrors(source, value.expr) && value.span == value.expr.span
}

impl<'hir> Body<'hir> {
    /// The tree of an expression says what the expression says: the same operators and literals, on
    /// the operands in their order, and calls with all their arguments.
    pub proof fn lemma_expr_mirrored(self, expr: ast::Expression<'hir>, hint: Option<Type>)
        ensures
            self.lower_expr(expr, hint).1 matches Ok(value) ==> mirrors(expr, value.expr)
                && value.span == value.expr.span,
        decreases expr, 0nat,
    {
        match expr {
            ast::Expression::Cast(e) => {
                self.lemma_cast_mirrored(e);
            },
            ast::Expression::Unary(e) => {
                self.lemma_unary_mirrored(e, hint);
            },
            ast::Expression::Binary(e) => {
                self.lemma_binary_mirrored(e, hint);
            },
            ast::Expression::Assignment(e) => {
                self.lemma_assignment_mirrored(e);
            },
            ast::Expression::Struct(e) => {
                self.lemma_struct_literal_mirrored(e);
            },
            ast::Expression::Field(e) => {
                self.lemma_field_mirrored(e);
            },
            ast::Expression::Array(e) => {
                self.lemma_array_mirrored(e, hint);
            },
            ast::Expression::ArrayRepeat(e) => {
                self.lemma_array_repeat_mirrored(e, hint);
            },
            ast::Expression::Index(e) => {
                self.lemma_index_mirrored(e);
            },
            ast::Expression::Call(e) => {
                self.lemma_call_mirrored(e);
            },
            ast::Expression::QualifiedCall(e) => {
                self.lemma_qualified_call_mirrored(e, hint);
            },
            _ => {},
        }
    }

    proof fn lemma_cast_mirrored(self, e: ast::Cast<'hir>)
        ensures
            said(ast::Expression::Cast(e), self.lower_cast(e).1),
        decreases e, 1nat,
    {
        if let (body, Ok(_)) = self.resolve_type(e.target_type) {
            body.lemma_expr_mirrored(*e.expr, None);
        }
    }

    proof fn lemma_unary_mirrored(self, e: ast::Unary<'hir>, hint: Option<Type>)
        ensures
            said(ast::Expression::Unary(e), self.lower_unary(e, hint).1),
        decreases e, 1nat,
    {
        self.lemma_expr_mirrored(
            *e.expr,
            crate::hir::typing::operand_hint(e.operator, hint),
        );
    }

    proof fn lemma_binary_mirrored(self, e: ast::Binary<'hir>, hint: Option<Type>)
        ensures
            said(ast::Expression::Binary(e), self.lower_binary(e, hint).1),
        decreases e, 1nat,
    {
        self.lemma_expr_mirrored(*e.left, hint);
        if let (body, Ok(left)) = self.lower_expr(*e.left, hint) {
            body.lemma_expr_mirrored(*e.right, body.right_hint(e.operator, left.typ));
        }
    }

    proof fn lemma_assignment_mirrored(self, e: ast::Assignment<'hir>)
        ensures
            said(ast::Expression::Assignment(e), self.lower_assignment(e).1),
        decreases e, 1nat,
    {
        self.lemma_expr_mirrored(*e.target, None);
        if let (body, Ok(target)) = self.lower_expr(*e.target, None) {
            body.lemma_expr_mirrored(*e.value, Some(target.typ));
        }
    }

    proof fn lemma_struct_literal_mirrored(self, e: ast::StructLiteral<'hir>)
        ensures
            said(ast::Expression::Struct(e), self.lower_struct_literal(e).1),
        decreases e, 1nat,
    {
        if let (body, Ok(id)) = self.literal_struct(e) {
            if let Some(definition) = body.names.structure(id) {
                body.lemma_fields_mirrored(
                    e.fields@,
                    0,
                    definition.fields@,
                    body.names.name(definition.name),
                    seq![],
                    seq![],
                );
            }
        }
    }

    proof fn lemma_field_mirrored(self, e: ast::FieldAccess<'hir>)
        ensures
            said(ast::Expression::Field(e), self.lower_field(e).1),
        decreases e, 1nat,
    {
        self.lemma_expr_mirrored(*e.expr, None);
    }

    proof fn lemma_array_mirrored(self, e: ast::ArrayLiteral<'hir>, hint: Option<Type>)
        ensures
            said(ast::Expression::Array(e), self.lower_array(e, hint).1),
        decreases e, 1nat,
    {
        let element_hint = match hint {
            Some(typ) => self.element_type(typ),
            None => None,
        };
        self.lemma_elements_mirrored(e.elements@, 0, None, element_hint, seq![]);
        if let (_, Ok((_, elements))) = self.lower_elements(
            e.elements@,
            0,
            None,
            element_hint,
            seq![],
        ) {
            lemma_part_all(e.elements@, elements);
        }
    }

    proof fn lemma_array_repeat_mirrored(self, e: ast::ArrayRepeat<'hir>, hint: Option<Type>)
        ensures
            said(ast::Expression::ArrayRepeat(e), self.lower_array_repeat(e, hint).1),
        decreases e, 1nat,
    {
        let element_hint = match hint {
            Some(typ) => self.element_type(typ),
            None => None,
        };
        self.lemma_expr_mirrored(*e.value, element_hint);
    }

    proof fn lemma_index_mirrored(self, e: ast::IndexAccess<'hir>)
        ensures
            said(ast::Expression::Index(e), self.lower_index(e).1),
        decreases e, 1nat,
    {
        self.lemma_expr_mirrored(*e.base, None);
        if let (body, Ok(base)) = self.lower_expr(*e.base, None) {
            body.lemma_expr_mirrored(*e.index, Some(Type::new(TypeKind::Uptr)));
        }
    }

    proof fn lemma_checked_mirrored(self, expr: ast::Expression<'hir>, expected: Type)
        ensures
            said(expr, self.lower_checked(expr, expected).1),
        decreases expr, 1nat,
    {
        self.lemma_expr_mirrored(expr, Some(expected));
    }

    proof fn lemma_fields_mirrored(
        self,
        inits: Seq<ast::FieldInit<'hir>>,
        at: nat,
        definition: Seq<StructField>,
        struct_name: Seq<char>,
        given: Seq<SymbolId>,
        lowered: Seq<(SymbolId, ExprTree<'hir>)>,
    )
        requires
            at <= inits.len(),
            lowered.len() == at,
            forall|i: int| 0 <= i < at ==> mirrors(inits[i].value, (#[trigger] lowered[i]).1),
        ensures
            self.lower_fields(inits, at, definition, struct_name, given, lowered).1 matches Ok(
                (_, fields),
            ) ==> mirror_fields(inits, fields),
        decreases inits, inits.len() - at,
    {
        if at < inits.len() {
            let init = inits[at as int];
            assert(decreases_to!(inits => inits[at as int]));
            assert(decreases_to!(inits[at as int] => inits[at as int].value));
            let (body, symbol) = self.insert(init.name@);
            if !given.contains(symbol) {
                if let Some(expected) = crate::hir::typing::field_type(definition, symbol, 0) {
                    body.lemma_checked_mirrored(init.value, expected);
                    if let (body, Ok(value)) = body.lower_checked(init.value, expected) {
                        body.lemma_fields_mirrored(
                            inits,
                            at + 1,
                            definition,
                            struct_name,
                            given.push(symbol),
                            lowered.push((symbol, value.expr)),
                        );
                    }
                }
            }
        }
    }

    proof fn lemma_elements_mirrored(
        self,
        elements: Seq<ast::Expression<'hir>>,
        at: nat,
        first: Option<Type>,
        hint: Option<Type>,
        lowered: Seq<ExprTree<'hir>>,
    )
        requires
            at <= elements.len(),
            mirror_part(elements, lowered, 0, at as int),
        ensures
            self.lower_elements(elements, at, first, hint, lowered).1 matches Ok((_, all))
                ==> mirror_part(elements, all, 0, elements.len() as int),
        decreases elements, elements.len() - at,
    {
        if at < elements.len() {
            let expected = match first {
                Some(typ) => Some(typ),
                None => hint,
            };
            assert(decreases_to!(elements => elements[at as int]));
            self.lemma_expr_mirrored(elements[at as int], expected);
            if let (body, Ok(value)) = self.lower_expr(elements[at as int], expected) {
                lemma_part_push(elements, lowered, 0, at as int, value.expr);
                let element = match first {
                    Some(typ) => typ,
                    None => value.typ,
                };
                let (body, _) = body.assert_type(element, value.typ, value.span);
                body.lemma_elements_mirrored(
                    elements,
                    at + 1,
                    Some(element),
                    hint,
                    lowered.push(value.expr),
                );
            }
        }
    }

    proof fn lemma_all_mirrored(
        self,
        args: Seq<ast::Expression<'hir>>,
        at: nat,
        lowered: Arguments<'hir>,
        shift: int,
    )
        requires
            0 <= shift <= at <= args.len(),
            mirror_part(args, lowered.exprs, shift, at as int),
        ensures
            self.lower_all(args, at, lowered).1 matches Ok(all) ==> mirror_part(
                args,
                all.exprs,
                shift,
                args.len() as int,
            ),
        decreases args, args.len() - at,
    {
        if at < args.len() {
            assert(decreases_to!(args => args[at as int]));
            self.lemma_expr_mirrored(args[at as int], None);
            if let (body, Ok(arg)) = self.lower_expr(args[at as int], None) {
                lemma_part_push(args, lowered.exprs, shift, at as int, arg.expr);
                body.lemma_all_mirrored(
                    args,
                    at + 1,
                    Arguments {
                        exprs: lowered.exprs.push(arg.expr),
                        types: lowered.types.push(arg.typ),
                    },
                    shift,
                );
            }
        }
    }

    proof fn lemma_args_mirrored(
        self,
        args: Seq<ast::Expression<'hir>>,
        at: nat,
        params: Seq<Type>,
        lowered: Seq<ExprTree<'hir>>,
    )
        requires
            at <= args.len() == params.len(),
            mirror_part(args, lowered, 0, at as int),
        ensures
            self.lower_args(args, at, params, lowered).1 matches Ok(all) ==> mirror_part(
                args,
                all,
                0,
                args.len() as int,
            ),
        decreases args, args.len() - at,
    {
        if at < args.len() {
            assert(decreases_to!(args => args[at as int]));
            self.lemma_checked_mirrored(args[at as int], params[at as int]);
            if let (body, Ok(arg)) = self.lower_checked(args[at as int], params[at as int]) {
                lemma_part_push(args, lowered, 0, at as int, arg.expr);
                body.lemma_args_mirrored(args, at + 1, params, lowered.push(arg.expr));
            }
        }
    }

    proof fn lemma_call_mirrored(self, expr: ast::Call<'hir>)
        ensures
            said(ast::Expression::Call(expr), self.lower_call(expr).1),
        decreases expr, 3nat,
    {
        match *expr.callee {
            ast::Expression::Field(callee) => {
                assert(decreases_to!(expr => *expr.callee));
                assert(decreases_to!(*expr.callee => (*expr.callee)->Field_0));
                assert(decreases_to!(callee => *callee.expr));
                self.lemma_expr_mirrored(*callee.expr, None);
                self.lemma_method_call_mirrored(expr, callee);
            },
            ast::Expression::Identifier(name, _) => {
                if let Some(id) = self.names.resolve_function_call(None, name@) {
                    self.lemma_function_call_mirrored(id, expr.args@, expr.type_args@, expr.span);
                }
            },
            _ => {},
        }
    }

    proof fn lemma_method_call_mirrored(self, expr: ast::Call<'hir>, callee: ast::FieldAccess<'hir>)
        requires
            *expr.callee == ast::Expression::Field(callee),
            said(*callee.expr, self.lower_expr(*callee.expr, None).1),
        ensures
            said(ast::Expression::Call(expr), self.lower_method_call(expr, callee).1),
        decreases expr, 2nat,
    {
        if let (body, Ok(receiver)) = self.lower_expr(*callee.expr, None) {
            let base_type = receiver.typ.strip_reference();
            let (body, method) = body.insert(callee.field@);
            if let (body, Ok(owner)) = body.method_owner(base_type, receiver.span) {
                if let Some(function) = crate::hir::table::lookup(
                    body.names.methods,
                    crate::hir::table::member_key(owner, method),
                ) {
                    if let Some(signature) = body.names.signature(function) {
                        if !(signature.kind is Intrinsic) {
                            let params = signature.explicit_params_spec();
                            if params.len() == expr.args@.len() {
                                body.lemma_args_mirrored(expr.args@, 0, params, seq![]);
                                if let (_, Ok(args)) = body.lower_args(
                                    expr.args@,
                                    0,
                                    params,
                                    seq![],
                                ) {
                                    lemma_part_all(expr.args@, args);
                                }
                            }
                        }
                    }
                }
            }
        }
    }

    proof fn lemma_qualified_call_mirrored(self, expr: ast::QualifiedCall<'hir>, hint: Option<Type>)
        ensures
            said(ast::Expression::QualifiedCall(expr), self.lower_qualified_call(expr, hint).1),
        decreases expr, 3nat,
    {
        self.lemma_variant_mirrored(expr, hint);
        if let (body, Ok(None)) = self.lower_variant(expr, hint) {
            if let Some(id) = body.names.resolve_function_call(
                Some(expr.qualifier@),
                expr.name@,
            ) {
                body.lemma_function_call_mirrored(id, expr.args@, expr.type_args@, expr.span);
            }
        }
    }

    proof fn lemma_variant_mirrored(self, expr: ast::QualifiedCall<'hir>, hint: Option<Type>)
        ensures
            self.lower_variant(expr, hint).1 matches Ok(Some(value)) ==> mirrors(
                ast::Expression::QualifiedCall(expr),
                value.expr,
            ) && value.span == value.expr.span,
        decreases expr, 2nat,
    {
        let (body, owner) = self.insert(expr.qualifier@);
        if let (body, Ok(Some(id))) = body.resolve_enum_id(expr, owner, hint) {
            let (body, variant) = body.insert(expr.name@);
            if let Some(definition) = body.names.enumeration(id) {
                if let Some(index) = crate::hir::typing::variant_position(
                    definition.variants@,
                    variant,
                    0,
                ) {
                    let payload = definition.variants@[index as int].payload;
                    if let Some(expected) = payload {
                        if expr.args@.len() > 0 {
                            assert(decreases_to!(expr.args@ => expr.args@[0]));
                            body.lemma_checked_mirrored(expr.args@[0], expected);
                        }
                    }
                    if let (_, Ok(args)) = body.lower_payload(expr, payload) {
                        if payload is Some {
                            assert(args.len() == 1 && mirrors(expr.args@[0], args[0]));
                            assert(mirror_start(expr.args@, args));
                        } else {
                            assert(args.len() == 0 && expr.args@.len() == 0);
                            assert(mirror_list(expr.args@, args));
                        }
                    }
                }
            }
        }
    }

    proof fn lemma_function_call_mirrored(
        self,
        id: FunctionId,
        args: Seq<ast::Expression<'hir>>,
        type_args: Seq<Spanned<ast::Type<'hir>>>,
        span: Span,
    )
        ensures
            self.lower_function_call(id, args, type_args, span).1 matches Ok(value) ==> {
                &&& value.span == span
                &&& value.expr.span == span
                &&& match value.expr.kind {
                    KindTree::Call { callee, args: trees } => callee.kind is Path && mirror_list(
                        args,
                        trees,
                    ),
                    kind => mirror_built_in(args, kind),
                }
            },
        decreases args, args.len() + 3,
    {
        if let Some(signature) = self.names.signature(id) {
            if let Some(template) = crate::hir::table::lookup(self.names.generic_fns, id.0) {
                if signature.params@.len() == args.len() {
                    self.lemma_plain_arguments(args, 0);
                }
            } else {
                match signature.kind {
                    FunctionKind::Intrinsic(Intrinsic::Syscall) => {
                        if args.len() > 0 {
                            self.lemma_plain_arguments(args, 1);
                        }
                    },
                    FunctionKind::Intrinsic(_) => {
                        self.lemma_plain_arguments(args, 0);
                    },
                    _ => {
                        if signature.params@.len() == args.len() {
                            self.lemma_args_mirrored(args, 0, signature.params@, seq![]);
                            if let (_, Ok(trees)) = self.lower_args(
                                args,
                                0,
                                signature.params@,
                                seq![],
                            ) {
                                lemma_part_all(args, trees);
                            }
                        }
                    },
                }
            }
        }
    }

    proof fn lemma_plain_arguments(self, args: Seq<ast::Expression<'hir>>, from: nat)
        requires
            from <= args.len(),
            from <= 1,
        ensures
            self.lower_all(args, from, Arguments { exprs: seq![], types: seq![] }).1 matches Ok(all)
                ==> if from == 0 {
                mirror_list(args, all.exprs)
            } else {
                &&& args.len() == all.exprs.len() + 1
                &&& forall|i: int|
                    1 <= i < args.len() ==> mirrors(args[i], #[trigger] all.exprs[i - 1])
            },
        decreases args, args.len() + 1,
    {
        let none = Arguments { exprs: seq![], types: seq![] };
        self.lemma_all_mirrored(args, from, none, from as int);
        if let (_, Ok(all)) = self.lower_all(args, from, none) {
            if from == 0 {
                lemma_part_all(args, all.exprs);
            }
        }
    }
}

/// Whether a tree says what a pattern says. A name can be that of a variant.
pub open spec fn mirrors_pattern<'s>(source: ast::Pattern<'s>, span: Span, tree: PatternTree) -> bool
    decreases source, 0nat,
{
    &&& tree.span == span
    &&& match (source, tree.kind) {
        (ast::Pattern::Wildcard, PatternKindTree::Wildcard) => true,
        (ast::Pattern::Literal(a), PatternKindTree::Literal(b)) => match (a, b) {
            (ast::PatternLit::Int(a), Literal::Int(b)) => a == b,
            (ast::PatternLit::Float(a), Literal::Float(b)) => a == b,
            (ast::PatternLit::Bool(a), Literal::Bool(b)) => a == b,
            (ast::PatternLit::Char(a), Literal::Char(b)) => a == b,
            _ => false,
        },
        (ast::Pattern::Or(a), PatternKindTree::Or(b)) => mirror_patterns(a@, b),
        (ast::Pattern::Ident(_), PatternKindTree::Binding(_)) => true,
        (ast::Pattern::Ident(_), PatternKindTree::Variant { sub, .. }) => sub is None,
        (ast::Pattern::Variant { sub: a, .. }, PatternKindTree::Variant { sub: b, .. }) => match (
            a,
            b,
        ) {
            (Some(a), Some(b)) => mirrors_pattern(a.value, a.span, *b),
            (None, None) => true,
            _ => false,
        },
        _ => false,
    }
}

pub open spec fn mirror_patterns<'s>(
    sources: Seq<Spanned<ast::Pattern<'s>>>,
    trees: Seq<PatternTree>,
) -> bool
    decreases sources, 0nat,
{
    &&& trees.len() == sources.len()
    &&& forall|i: int|
        0 <= i < sources.len() ==> mirrors_pattern(
            sources[i].value,
            sources[i].span,
            #[trigger] trees[i],
        )
}

pub open spec fn mirrors_arm<'s, 'h>(source: ast::Arm<'s>, tree: ArmTree<'h>) -> bool {
    &&& mirrors_pattern(source.pattern.value, source.pattern.span, tree.pattern)
    &&& match (source.guard, tree.guard) {
        (Some(a), Some(b)) => mirrors(a, b),
        (None, None) => true,
        _ => false,
    }
    &&& mirrors(source.body, tree.body)
    &&& tree.span == source.span
}

/// Whether a tree is the match of a value, arm by arm in order.
pub open spec fn mirrors_match<'s, 'h>(source: ast::Match<'s>, tree: ExprTree<'h>) -> bool {
    &&& tree.span == source.span
    &&& match tree.kind {
        KindTree::Match { scrutinee, arms } => {
            &&& mirrors(source.scrutinee, *scrutinee)
            &&& arms.len() == source.arms@.len()
            &&& forall|i: int| 0 <= i < arms.len() ==> mirrors_arm(source.arms@[i], #[trigger] arms[i])
        },
        _ => false,
    }
}

/// Whether a loop runs over what its header says: from the start to the end, the end among them or
/// not as written, or over the same value.
pub open spec fn mirrors_header<'s, 'h>(source: ast::LoopHeader<'s>, tree: LoopTree<'h>) -> bool {
    match (source, tree) {
        (ast::LoopHeader::Infinite, LoopTree::Infinite) => true,
        (
            ast::LoopHeader::Range { binding: a, start: b, end: c, inclusive: d },
            LoopTree::Range { binding, start, end, inclusive },
        ) => {
            &&& mirrors(b, start)
            &&& mirrors(c, end)
            &&& inclusive == d
            &&& binding is Some == a is Some
        },
        (
            ast::LoopHeader::Iterable { iterable: a, .. },
            LoopTree::Iterable { iterable, .. },
        ) => mirrors(a, iterable),
        _ => false,
    }
}

/// Whether a statement gives the value of an expression: at the end of a function it may return it.
pub open spec fn gives_tree<'h>(statement: StatementTree<'h>, tail: bool) -> Option<ExprTree<'h>> {
    match statement {
        StatementTree::Expr(tree) => Some(tree),
        StatementTree::Return(Some(tree)) => if tail {
            Some(tree)
        } else {
            None
        },
        _ => None,
    }
}

/// Whether a tree says what a statement says. `tail` tells whether it is the last of a function.
pub open spec fn mirrors_statement<'s, 'h>(
    source: ast::Statement<'s>,
    tree: StatementTree<'h>,
    tail: bool,
) -> bool
    decreases source, 0nat,
{
    match source {
        ast::Statement::Let(a) => match (a.value, tree) {
            (Some(value), StatementTree::LetInit { init, .. }) => mirrors(value, init),
            (None, StatementTree::LetUninit { .. }) => true,
            _ => false,
        },
        ast::Statement::Return(a) => match (a.value, tree) {
            (Some(value), StatementTree::Return(Some(returned))) => mirrors(value, returned),
            (None, StatementTree::Return(None)) => true,
            _ => false,
        },
        ast::Statement::If(a) => mirrors_if(a, tree, tail),
        ast::Statement::While(a) => match tree {
            StatementTree::While { condition, body } => mirrors(a.condition, condition)
                && mirrors_block(a.body, body, false),
            _ => false,
        },
        ast::Statement::Loop(a) => match tree {
            StatementTree::Loop { kind, body } => mirrors_header(a.header, kind) && mirrors_block(
                a.body,
                body,
                false,
            ),
            _ => false,
        },
        ast::Statement::Break(_) => tree is Break,
        ast::Statement::Continue(_) => tree is Continue,
        ast::Statement::Expr(a, _) => match gives_tree(tree, tail) {
            Some(given) => mirrors(a, given),
            None => false,
        },
        ast::Statement::Match(a) => match gives_tree(tree, tail) {
            Some(given) => mirrors_match(a, given),
            None => false,
        },
        ast::Statement::Block(a) => match tree {
            StatementTree::Block(block) => mirrors_block(a, block, tail),
            _ => false,
        },
        ast::Statement::Item(_) => false,
    }
}

pub open spec fn mirrors_if<'s, 'h>(source: ast::If<'s>, tree: StatementTree<'h>, tail: bool) -> bool
    decreases source, 0nat,
{
    match tree {
        StatementTree::If { condition, then_block, else_block } => {
            &&& mirrors(source.condition, condition)
            &&& mirrors_block(source.then_branch, then_block, tail)
            &&& match (source.else_branch, else_block) {
                (Some(a), Some(b)) => mirrors_else(*a, b, tail),
                (None, None) => true,
                _ => false,
            }
        },
        _ => false,
    }
}

pub open spec fn mirrors_else<'s, 'h>(source: ast::Else<'s>, tree: BlockTree<'h>, tail: bool) -> bool
    decreases source, 0nat,
{
    match source {
        ast::Else::If(a) => tree.statements.len() == 1 && mirrors_if(a, tree.statements[0], tail),
        ast::Else::Block(a) => mirrors_block(a, tree, tail),
        ast::Else::Expr(a) => tree.statements.len() == 1 && match gives_tree(
            tree.statements[0],
            tail,
        ) {
            Some(given) => mirrors(a, given),
            None => false,
        },
    }
}

/// Whether a block says what a block says: statement by statement in order, without the constants
/// it declares.
pub open spec fn mirrors_block<'s, 'h>(source: ast::Block<'s>, tree: BlockTree<'h>, tail: bool) -> bool
    decreases source, 1nat,
{
    tree.span == source.span && mirror_statements(
        source.statements@,
        source.statements@.len(),
        tree.statements,
        tail,
    )
}

/// The same of the first `count` statements.
pub open spec fn mirror_statements<'s, 'h>(
    sources: Seq<ast::Statement<'s>>,
    count: nat,
    trees: Seq<StatementTree<'h>>,
    tail: bool,
) -> bool
    decreases sources, count,
{
    if count == 0 || count > sources.len() {
        trees.len() == 0
    } else {
        let last = sources[count - 1];
        if last is Item {
            mirror_statements(sources, (count - 1) as nat, trees, tail)
        } else {
            &&& trees.len() > 0
            &&& mirrors_statement(last, trees.last(), tail && count == sources.len())
            &&& mirror_statements(sources, (count - 1) as nat, trees.drop_last(), tail)
        }
    }
}

/// Work that only adds to names does not start to work around errors.
proof fn lemma_strict<'hir>(before: Body<'hir>, after: Body<'hir>)
    requires
        crate::hir::growth::extends(before.ledger(), after.ledger()),
    ensures
        after.names.recover == before.names.recover,
{
    reveal(crate::hir::growth::extends);
}

impl<'hir> Body<'hir> {
    proof fn lemma_pattern_mirrored(self, scrutinee: Type, pattern: ast::Pattern<'hir>, span: Span)
        ensures
            self.lower_pattern(scrutinee, pattern, span).1 matches Ok(tree) ==> mirrors_pattern(
                pattern,
                span,
                tree,
            ),
        decreases pattern, 0nat,
    {
        match pattern {
            ast::Pattern::Or(alternatives) => {
                self.lemma_patterns_mirrored(scrutinee, alternatives@, 0, seq![]);
            },
            ast::Pattern::Variant { qualifier, name, sub } => {
                if let Ok(id) = crate::hir::body::enum_type_spec(scrutinee, span) {
                    if let (body, Ok(_)) = self.check_qualifier(qualifier, id, name@, span) {
                        if let Some(index) = body.variant_named(id, name@) {
                            if let (Some(sub), Some(payload)) = (
                                sub,
                                body.variant_payload(id, index),
                            ) {
                                body.lemma_pattern_mirrored(payload, sub.value, sub.span);
                            }
                        }
                    }
                }
            },
            _ => {},
        }
    }

    proof fn lemma_patterns_mirrored(
        self,
        scrutinee: Type,
        patterns: Seq<Spanned<ast::Pattern<'hir>>>,
        at: nat,
        lowered: Seq<PatternTree>,
    )
        requires
            at <= patterns.len(),
            lowered.len() == at,
            forall|i: int|
                0 <= i < at ==> mirrors_pattern(
                    patterns[i].value,
                    patterns[i].span,
                    #[trigger] lowered[i],
                ),
        ensures
            self.lower_patterns(scrutinee, patterns, at, lowered).1 matches Ok(all)
                ==> mirror_patterns(patterns, all),
        decreases patterns, patterns.len() - at,
    {
        if at < patterns.len() {
            let next = patterns[at as int];
            assert(decreases_to!(patterns => patterns[at as int]));
            assert(decreases_to!(patterns[at as int] => patterns[at as int].value));
            self.lemma_pattern_mirrored(scrutinee, next.value, next.span);
            if let (body, Ok(tree)) = self.lower_pattern(scrutinee, next.value, next.span) {
                body.lemma_patterns_mirrored(scrutinee, patterns, at + 1, lowered.push(tree));
            }
        }
    }

    proof fn lemma_condition_mirrored(self, expr: ast::Expression<'hir>, span: Option<Span>)
        ensures
            said(expr, self.lower_condition(expr, span).1),
    {
        self.lemma_expr_mirrored(expr, None);
    }

    proof fn lemma_arm_mirrored(self, arm: ast::Arm<'hir>, scrutinee: Type, expected: Option<Type>)
        ensures
            self.lower_arm(arm, scrutinee, expected).1 matches Ok((tree, _)) ==> mirrors_arm(
                arm,
                tree,
            ),
    {
        let start = self.push_scope();
        start.lemma_pattern_mirrored(scrutinee, arm.pattern.value, arm.pattern.span);
        if let (body, Ok(_)) = start.lower_pattern(
            scrutinee,
            arm.pattern.value,
            arm.pattern.span,
        ) {
            if let Some(guard) = arm.guard {
                body.lemma_condition_mirrored(guard, None);
                let next = body.lower_condition(guard, None).0;
                next.lemma_expr_mirrored(arm.body, expected);
            } else {
                body.lemma_expr_mirrored(arm.body, expected);
            }
        }
    }

    proof fn lemma_arms_mirrored(
        self,
        arms: Seq<ast::Arm<'hir>>,
        at: nat,
        scrutinee: Type,
        expected: Option<Type>,
        lowered: Seq<ArmTree<'hir>>,
    )
        requires
            at <= arms.len(),
            lowered.len() == at,
            forall|i: int| 0 <= i < at ==> mirrors_arm(arms[i], #[trigger] lowered[i]),
        ensures
            self.lower_arms(arms, at, scrutinee, expected, lowered).1 matches Ok((all, _)) ==> {
                &&& all.len() == arms.len()
                &&& forall|i: int| 0 <= i < all.len() ==> mirrors_arm(arms[i], #[trigger] all[i])
            },
        decreases arms.len() - at,
    {
        if at < arms.len() {
            self.lemma_arm_mirrored(arms[at as int], scrutinee, expected);
            if let (body, Ok((arm, next))) = self.lower_arm(arms[at as int], scrutinee, expected) {
                body.lemma_arms_mirrored(arms, at + 1, scrutinee, next, lowered.push(arm));
            }
        }
    }

    proof fn lemma_match_mirrored(self, statement: ast::Match<'hir>, hint: Option<Type>)
        ensures
            self.lower_match(statement, hint).1 matches Ok(value) ==> mirrors_match(
                statement,
                value.expr,
            ),
    {
        self.lemma_expr_mirrored(statement.scrutinee, None);
        if let (body, Ok(scrutinee)) = self.lower_expr(statement.scrutinee, None) {
            body.lemma_arms_mirrored(statement.arms@, 0, scrutinee.typ, hint, seq![]);
        }
    }

    /// The lowered form of a loop's header keeps what it says: a range has the lowered start and end,
    /// in that order, and its end is part of it exactly where the source says so.
    pub proof fn lemma_header_mirrored(self, header: ast::LoopHeader<'hir>)
        ensures
            self.lower_header(header).1 matches Ok(tree) ==> mirrors_header(header, tree),
    {
        match header {
            ast::LoopHeader::Infinite => {},
            ast::LoopHeader::Range { binding, start, end, inclusive } => {
                self.lemma_expr_mirrored(start, None);
                if let (body, Ok(first)) = self.lower_expr(start, None) {
                    body.lemma_checked_mirrored(end, body.infer.resolve_shallow(first.typ));
                }
            },
            ast::LoopHeader::Iterable { binding, iterable } => {
                self.lemma_expr_mirrored(iterable, None);
            },
        }
    }

    proof fn lemma_let_mirrored(self, statement: ast::Let<'hir>)
        requires
            !self.names.recover,
        ensures
            self.lower_let(statement).1 matches Ok(step) ==> step.statement matches Some(tree)
                && mirrors_statement(ast::Statement::Let(statement), tree, false)
                && mirrors_statement(ast::Statement::Let(statement), tree, true),
    {
        match (statement.typ, statement.value) {
            (Some(annotation), value) => {
                self.lemma_resolve_type_grows(annotation);
                lemma_strict(self, self.resolve_type(annotation).0);
                if let (body, Ok(typ)) = self.resolve_type(annotation) {
                    let (body, symbol) = body.insert(statement.name@);
                    if let (body, Ok(id)) = body.declare_local(
                        symbol,
                        typ,
                        statement.mutable,
                        statement.name_span,
                    ) {
                        if let Some(value) = value {
                            body.lemma_expr_mirrored(value, Some(typ));
                            body.lemma_lower_expr_grows(value, Some(typ));
                            lemma_strict(body, body.lower_expr(value, Some(typ)).0);
                        }
                    }
                }
            },
            (None, Some(value)) => {
                self.lemma_expr_mirrored(value, None);
                self.lemma_lower_expr_grows(value, None);
                lemma_strict(self, self.lower_expr(value, None).0);
            },
            (None, None) => {},
        }
    }

    /// The tree of a statement says what the statement says: an `if` and a `while` keep their
    /// conditions and branches, a loop its header, a `match` its arms, and every block its
    /// statements in their order. A constant of a body leaves no statement.
    pub proof fn lemma_statement_mirrored(self, statement: ast::Statement<'hir>, is_tail: bool)
        requires
            !self.names.recover,
        ensures
            self.lower_statement(statement, is_tail).1 matches Ok(step) ==> match step.statement {
                Some(tree) => !(statement is Item) && mirrors_statement(statement, tree, is_tail),
                None => statement is Item,
            },
        decreases statement, 2nat,
    {
        match statement {
            ast::Statement::Let(s) => {
                self.lemma_let_mirrored(s);
            },
            ast::Statement::Return(s) => {
                if let Some(value) = s.value {
                    self.lemma_checked_mirrored(value, self.return_type);
                }
            },
            ast::Statement::If(s) => {
                self.lemma_if_mirrored(s, is_tail);
            },
            ast::Statement::While(s) => {
                self.lemma_condition_mirrored(s.condition, Some(s.span));
                self.lemma_lower_condition_grows(s.condition, Some(s.span));
                if let (body, Ok(_)) = self.lower_condition(s.condition, Some(s.span)) {
                    lemma_strict(self, body);
                    let inside = Body { loops: body.loops.wrapping_add(1), ..body };
                    inside.lemma_block_mirrored(s.body, false);
                }
            },
            ast::Statement::Loop(s) => {
                let start = self.push_scope();
                start.lemma_header_mirrored(s.header);
                start.lemma_lower_header_grows(s.header);
                if let (body, Ok(_)) = start.lower_header(s.header) {
                    lemma_strict(start, body);
                    let inside = Body { loops: body.loops.wrapping_add(1), ..body };
                    inside.lemma_block_mirrored(s.body, false);
                }
            },
            ast::Statement::Expr(e, _) => {
                self.lemma_expr_mirrored(e, self.value_hint(is_tail));
            },
            ast::Statement::Match(s) => {
                self.lemma_match_mirrored(s, self.value_hint(is_tail));
            },
            ast::Statement::Block(s) => {
                self.lemma_block_mirrored(s, is_tail);
            },
            ast::Statement::Item(item) => match item.kind {
                ast::ItemKind::Const(constant) => {
                    self.lemma_const_mirrored(*constant);
                },
                _ => {},
            },
            _ => {},
        }
    }

    proof fn lemma_const_mirrored(self, constant: ast::Const<'hir>)
        requires
            !self.names.recover,
        ensures
            self.lower_body_const(constant).1 matches Ok(step) ==> step.statement is None,
    {
        self.lemma_resolve_type_grows(constant.typ);
        lemma_strict(self, self.resolve_type(constant.typ).0);
        if let (body, Ok(typ)) = self.resolve_type(constant.typ) {
            let (next, symbol) = body.insert(constant.name@);
            next.lemma_const_value_grows(constant, symbol, typ);
            lemma_strict(next, next.const_value(constant, symbol, typ).0);
        }
    }

    proof fn lemma_if_mirrored(self, statement: ast::If<'hir>, is_tail: bool)
        requires
            !self.names.recover,
        ensures
            self.lower_if(statement, is_tail).1 matches Ok(step) ==> step.statement matches Some(
                tree,
            ) && mirrors_if(statement, tree, is_tail),
        decreases statement, 2nat,
    {
        self.lemma_condition_mirrored(statement.condition, None);
        self.lemma_lower_condition_grows(statement.condition, None);
        if let (body, Ok(condition)) = self.lower_condition(statement.condition, None) {
            lemma_strict(self, body);
            body.lemma_block_mirrored(statement.then_branch, is_tail);
            body.lemma_lower_block_grows(statement.then_branch, is_tail);
            if let (next, Ok(_)) = body.lower_block(statement.then_branch, is_tail) {
                lemma_strict(body, next);
                if let Some(branch) = statement.else_branch {
                    next.lemma_else_mirrored(*branch, is_tail);
                }
            }
        }
    }

    proof fn lemma_else_mirrored(self, branch: ast::Else<'hir>, is_tail: bool)
        requires
            !self.names.recover,
        ensures
            self.lower_else(branch, is_tail).1 matches Ok((tree, _)) ==> mirrors_else(
                branch,
                tree,
                is_tail,
            ),
        decreases branch, 4nat,
    {
        match branch {
            ast::Else::If(statement) => {
                self.lemma_if_mirrored(statement, is_tail);
            },
            ast::Else::Block(block) => {
                self.lemma_block_mirrored(block, is_tail);
            },
            ast::Else::Expr(expr) => {
                self.lemma_expr_mirrored(expr, self.value_hint(is_tail));
            },
        }
    }

    proof fn lemma_block_mirrored(self, block: ast::Block<'hir>, is_tail: bool)
        requires
            !self.names.recover,
        ensures
            self.lower_block(block, is_tail).1 matches Ok((tree, _)) ==> mirrors_block(
                block,
                tree,
                is_tail,
            ),
        decreases block, 3nat,
    {
        self.push_scope().lemma_statements_mirrored(
            block.statements@,
            0,
            is_tail,
            seq![],
            false,
        );
    }

    proof fn lemma_statements_mirrored(
        self,
        statements: Seq<ast::Statement<'hir>>,
        at: nat,
        is_tail: bool,
        lowered: Seq<StatementTree<'hir>>,
        ends: bool,
    )
        requires
            !self.names.recover,
            at <= statements.len(),
            mirror_statements(statements, at, lowered, is_tail),
        ensures
            self.lower_statements(statements, at, is_tail, lowered, ends).1 matches Ok((all, _))
                ==> mirror_statements(statements, statements.len(), all, is_tail),
        decreases statements, statements.len() - at,
    {
        if at < statements.len() {
            let statement = statements[at as int];
            let tail = is_tail && at + 1 == statements.len();
            assert(decreases_to!(statements => statements[at as int]));
            self.lemma_statement_mirrored(statement, tail);
            self.lemma_lower_statement_grows(statement, tail);
            let (body, outcome) = self.lower_statement(statement, tail);
            lemma_strict(self, body);
            if let Ok(step) = outcome {
                let more = match step.statement {
                    Some(tree) => lowered.push(tree),
                    None => lowered,
                };
                if step.statement is Some {
                    assert(more.drop_last() =~= lowered);
                }
                body.lemma_statements_mirrored(
                    statements,
                    at + 1,
                    is_tail,
                    more,
                    ends || step.ends,
                );
            }
        }
    }

    /// The tree of a function says what its body says, and is that function.
    pub proof fn lemma_function_mirrored(self, id: FunctionId, function: ast::Function<'hir>)
        requires
            !self.names.recover,
        ensures
            self.lower_function(id, function).1 matches Ok(tree) ==> {
                &&& mirrors_block(function.body, tree.body, true)
                &&& tree.id == id
                &&& tree.decl_span == function.span
                &&& tree.is_const == function.is_const
                &&& tree.is_pub == function.is_pub
                &&& tree.inline == function.inline
                &&& self.names.signature(id) matches Some(signature) && tree.return_type
                    == signature.return_type && tree.kind == signature.kind && tree.name
                    == signature.name
            },
    {
        if let Some(signature) = self.names.signature(id) {
            let start = Body { return_type: signature.return_type, ..self };
            start.lemma_declare_receiver_grows(function, signature);
            if let (body, Ok(receiver)) = start.declare_receiver(function, signature) {
                lemma_strict(start, body);
                let types = signature.explicit_params_spec();
                body.lemma_declare_params_grows(function.params@, types, 0, receiver);
                if let (next, Ok(_)) = body.declare_params(function.params@, types, 0, receiver) {
                    lemma_strict(body, next);
                    next.lemma_block_mirrored(function.body, true);
                }
            }
        }
    }

    /// An expression at the end of a function that gives a value is returned, unless it never comes
    /// to an end; elsewhere it is not.
    pub proof fn lemma_tail_value(self, expr: LoweredTree<'hir>, is_tail: bool)
        ensures
            self.handle_tail_expr(expr, is_tail).1 matches Ok(step) ==> {
                let given = is_tail && !(self.return_type.kind() is Unit) && !(expr.typ.kind()
                    is Never);
                &&& step.statement == Some(
                    if given {
                        StatementTree::Return(Some(expr.expr))
                    } else {
                        StatementTree::Expr(expr.expr)
                    },
                )
                &&& given ==> step.ends
                &&& expr.typ.kind() is Never ==> step.ends
            },
    {
    }
}

} // verus!
