//! Lowering of whole functions and constant initialisers.

use crate::arena::{lemma_slice_of, slice_of};
use crate::ast;
use crate::ast::GenericBound;
use crate::hir::body::{Body, FunctionBuilder};
use crate::hir::error::{seen, HirError, HirErrorKind};
use crate::hir::infer::{InferTable, Inference};
use crate::hir::inference_laws::{concrete_function, concrete_nodes};
use crate::hir::scope::{FunctionSignature, GenericEnv, Names, Outcome, Scope};
use crate::hir::symbols::SymbolId;
use crate::hir::tree::{
    expr_tree, BlockTree, ExprTree, Expression, Function, FunctionId, FunctionTree, Parameter,
    TypeckResults,
};
use crate::hir::types::{Type, TypeKind};
use vstd::prelude::*;

verus! {

/// The position of the parameter with the given index among the entries of `env`, from position
/// `at` on.
pub open spec fn param_position<'a>(env: Seq<(&'a str, Type)>, index: u8, at: int) -> Option<int>
    decreases env.len() - at,
{
    if at < 0 || at >= env.len() {
        None
    } else if env[at].1.kind() == TypeKind::GenericParam(index) {
        Some(at)
    } else {
        param_position(env, index, at + 1)
    }
}

/// Whether the entries of `env` are exactly the open parameters from zero on.
pub open spec fn is_open_env<'a>(env: Seq<(&'a str, Type)>) -> bool {
    &&& env.len() <= 256
    &&& forall|i: int| 0 <= i < env.len() ==> (#[trigger] env[i]).1.kind() is GenericParam
    &&& forall|k: int| 0 <= k < env.len() ==> #[trigger] param_position(env, k as u8, 0) is Some
}

fn find_param<'a>(env: &[(&'a str, Type)], index: u8) -> (position: Option<usize>)
    ensures
        match position {
            Some(position) => param_position(env@, index, 0) == Some(position as int) && position
                < env@.len(),
            None => param_position(env@, index, 0) is None,
        },
{
    let mut i: usize = 0;
    while i < env.len()
        invariant
            i <= env@.len(),
            param_position(env@, index, 0) == param_position(env@, index, i as int),
        decreases env@.len() - i,
    {
        if let TypeKind::GenericParam(found) = env[i].1.kind() {
            if found == index {
                return Some(i);
            }
        }
        i += 1;
    }
    None
}

fn open_env<'a>(env: &[(&'a str, Type)]) -> (open: bool)
    ensures
        open == is_open_env(env@),
{
    if env.len() > 256 {
        return false;
    }
    let mut i: usize = 0;
    while i < env.len()
        invariant
            i <= env@.len() <= 256,
            forall|j: int| 0 <= j < i ==> (#[trigger] env@[j]).1.kind() is GenericParam,
            forall|k: int| 0 <= k < i ==> #[trigger] param_position(env@, k as u8, 0) is Some,
        decreases env@.len() - i,
    {
        match env[i].1.kind() {
            TypeKind::GenericParam(_) => {},
            _ => {
                return false;
            },
        }
        if find_param(env, i as u8).is_none() {
            assert(param_position(env@, (i as int) as u8, 0) is None);
            return false;
        }
        i += 1;
    }
    true
}

impl<'hir> Body<'hir> {
    /// The state in which a function body is entered.
    pub open spec fn for_function(
        names: Names<'hir>,
        function: &'hir ast::Function<'hir>,
        env: GenericEnv<'hir>,
    ) -> Body<'hir> {
        Body {
            names,
            locals: seq![],
            bindings: seq![],
            marks: seq![0usize],
            nodes: seq![],
            infer: Inference::empty(),
            return_type: Type::new(TypeKind::Unit),
            impl_type: function.impl_type,
            generics: slice_of(function.generics@),
            is_const: function.is_const,
            in_const: false,
            loops: 0,
            self_type: match function.impl_type {
                Some(impl_type) => names.lookup_named_type(impl_type@),
                None => None,
            },
            env,
        }
    }

    /// The state in which the initialiser of an item constant is entered.
    pub open spec fn for_const(names: Names<'hir>) -> Body<'hir> {
        Body {
            names,
            locals: seq![],
            bindings: seq![],
            marks: seq![0usize],
            nodes: seq![],
            infer: Inference::empty(),
            return_type: Type::new(TypeKind::Unit),
            impl_type: None,
            generics: slice_of(seq![]),
            is_const: true,
            in_const: false,
            loops: 0,
            self_type: None,
            env: slice_of(seq![]),
        }
    }

    /// Declares the parameters of a function from position `at` on.
    pub open spec fn declare_params(
        self,
        params: Seq<ast::Parameter<'hir>>,
        types: Seq<Type>,
        at: nat,
        declared: Seq<Parameter>,
    ) -> (Body<'hir>, Outcome<Seq<Parameter>>)
        decreases params.len() - at,
    {
        if at >= params.len() || at >= types.len() {
            (self, Ok(declared))
        } else {
            let param = params[at as int];
            let typ = types[at as int];
            let (body, symbol) = self.insert(param.name@);
            match body.declare_local(symbol, typ, param.mutable, param.span) {
                (body, Err(error)) => (body, Err(error)),
                (body, Ok(id)) => body.declare_params(
                    params,
                    types,
                    at + 1,
                    declared.push(Parameter { id, name: symbol, mutable: param.mutable, typ }),
                ),
            }
        }
    }

    /// Declares the receiver of a method.
    pub open spec fn declare_receiver(
        self,
        function: ast::Function<'hir>,
        signature: FunctionSignature<'hir>,
    ) -> (Body<'hir>, Outcome<Seq<Parameter>>) {
        match (function.receiver, signature.receiver_type_spec()) {
            (Some(receiver), Some(typ)) => {
                let (body, symbol) = self.insert("self"@);
                match body.declare_local(symbol, typ, receiver.mutable, receiver.span) {
                    (body, Err(error)) => (body, Err(error)),
                    (body, Ok(id)) => (
                        body,
                        Ok(
                            seq![
                                Parameter { id, name: symbol, mutable: receiver.mutable, typ },
                            ],
                        ),
                    ),
                }
            },
            _ => (self, Ok(seq![])),
        }
    }

    /// Interns the names of open parameters from position `at` on.
    pub open spec fn open_names(self, at: nat, symbols: Seq<SymbolId>) -> (
        Body<'hir>,
        Seq<SymbolId>,
    )
        decreases self.env@.len() - at,
    {
        if at >= self.env@.len() {
            (self, symbols)
        } else {
            match param_position(self.env@, at as u8, 0) {
                Some(position) => {
                    let (body, symbol) = self.insert(self.env@[position].0@);
                    body.open_names(at + 1, symbols.push(symbol))
                },
                None => (self, symbols),
            }
        }
    }

    /// The declared generic parameters of an open instance, in order.
    pub open spec fn declared_fn_names(self) -> (Body<'hir>, Seq<SymbolId>) {
        if is_open_env(self.env@) {
            self.open_names(0, seq![])
        } else {
            (self, seq![])
        }
    }

    /// A function that must give a value but can end without one is an error.
    pub open spec fn check_return(
        self,
        function: ast::Function<'hir>,
        signature: FunctionSignature<'hir>,
        ends: bool,
    ) -> (Body<'hir>, Outcome<()>) {
        let expected = signature.return_type;
        if ends || expected.kind() is Unit || expected.diverges() || expected.is_error() {
            (self, Ok(()))
        } else {
            self.soft(
                HirError::new(
                    HirErrorKind::MissingReturn {
                        name: self.names.name(signature.name),
                        expected,
                    },
                    function.span,
                ),
            )
        }
    }

    /// Lowers a function whose body is just entered.
    pub open spec fn lower_function(self, id: FunctionId, function: ast::Function<'hir>) -> (
        Body<'hir>,
        Outcome<FunctionTree<'hir>>,
    ) {
        match self.names.signature(id) {
            None => (
                self,
                Err(
                    HirError::new(
                        HirErrorKind::UnknownFunction { name: function.name@ },
                        function.span,
                    ),
                ),
            ),
            Some(signature) => {
                let body = Body { return_type: signature.return_type, ..self };
                match body.declare_receiver(function, signature) {
                    (body, Err(error)) => (body, Err(error)),
                    (body, Ok(receiver)) => match body.declare_params(
                        function.params@,
                        signature.explicit_params_spec(),
                        0,
                        receiver,
                    ) {
                        (body, Err(error)) => (body, Err(error)),
                        (body, Ok(params)) => match body.lower_block(function.body, true) {
                            (body, Err(error)) => (body, Err(error)),
                            (body, Ok((block, ends))) => match body.check_return(
                                function,
                                signature,
                                ends,
                            ) {
                                (body, Err(error)) => (body, Err(error)),
                                (body, Ok(_)) => body.finish(
                                    id,
                                    function,
                                    signature,
                                    params,
                                    block,
                                ),
                            },
                        },
                    },
                }
            },
        }
    }

    /// The function made of a lowered body.
    pub open spec fn finish(
        self,
        id: FunctionId,
        function: ast::Function<'hir>,
        signature: FunctionSignature<'hir>,
        params: Seq<Parameter>,
        block: BlockTree<'hir>,
    ) -> (Body<'hir>, Outcome<FunctionTree<'hir>>) {
        let (body, generics) = self.resolve_inference().declared_fn_names();
        (
            body,
            Ok(
                FunctionTree {
                    id,
                    name: signature.name,
                    decl_span: function.span,
                    kind: signature.kind,
                    params,
                    locals: body.locals,
                    return_type: signature.return_type,
                    is_const: function.is_const,
                    is_pub: function.is_pub,
                    inline: function.inline,
                    nodes: body.nodes,
                    body: block,
                    generics,
                },
            ),
        )
    }

    /// Lowers the initialiser of a constant of the given type.
    pub open spec fn lower_initialiser(self, expr: ast::Expression<'hir>, typ: Type) -> (
        Body<'hir>,
        Outcome<(ExprTree<'hir>, TypeckResults<'hir>)>,
    ) {
        match self.lower_checked(expr, typ) {
            (body, Err(error)) => (body, Err(error)),
            (body, Ok(value)) => {
                let body = body.resolve_inference();
                (body, Ok((value.expr, TypeckResults { nodes: slice_of(body.nodes) })))
            },
        }
    }
}

/// The outcome of lowering a function as contracts see it.
pub open spec fn seen_function<'hir>(
    result: Result<Function<'hir>, HirError<&'hir str>>,
) -> Outcome<FunctionTree<'hir>> {
    match result {
        Ok(function) => Ok(function@),
        Err(error) => Err(error@),
    }
}

/// The outcome of declaring parameters as contracts see it.
pub open spec fn seen_params<'hir>(
    result: Result<Vec<Parameter>, HirError<&'hir str>>,
) -> Outcome<Seq<Parameter>> {
    match result {
        Ok(params) => Ok(params@),
        Err(error) => Err(error@),
    }
}

/// The outcome of lowering an initialiser as contracts see it.
pub open spec fn seen_initialiser<'hir>(
    result: Result<(&'hir Expression<'hir>, TypeckResults<'hir>), HirError<&'hir str>>,
) -> Outcome<(ExprTree<'hir>, TypeckResults<'hir>)> {
    match result {
        Ok((expr, typeck)) => Ok((expr_tree(*expr), typeck)),
        Err(error) => Err(error@),
    }
}

impl<'hir> FunctionBuilder<'hir> {
    pub fn new(scope: Scope<'hir>, function: &'hir ast::Function<'hir>) -> (builder: Self)
        ensures
            builder.wf(),
            builder@ == Body::for_function(scope@, function, slice_of(seq![])),
            builder.scope == scope,
    {
        let env: Vec<(&'hir str, Type)> = Vec::new();
        let env = scope.arena.place_slice(&env);
        assert(Seq::<(&'hir str, Type)>::empty() =~= seq![]);
        FunctionBuilder::new_instance(scope, function, env)
    }

    /// A builder for an instance of a generic function.
    pub fn new_instance(
        scope: Scope<'hir>,
        function: &'hir ast::Function<'hir>,
        env: GenericEnv<'hir>,
    ) -> (builder: Self)
        ensures
            builder.wf(),
            builder@ == Body::for_function(scope@, function, env),
            builder.scope == scope,
    {
        let self_type = match function.impl_type {
            Some(impl_type) => scope.lookup_named_type(impl_type),
            None => None,
        };
        let generics = function.generics.as_slice();
        proof {
            lemma_slice_of(generics);
        }
        let mut marks: Vec<usize> = Vec::new();
        marks.push(0);
        assert(marks@ =~= seq![0usize]);
        let builder = FunctionBuilder {
            scope,
            locals: Vec::new(),
            bindings: Vec::new(),
            marks,
            nodes: Vec::new(),
            infer: InferTable::new(),
            return_type: Type::new(TypeKind::Unit),
            impl_type: function.impl_type,
            generics,
            is_const: function.is_const,
            in_const: false,
            loops: 0,
            self_type,
            env,
        };
        assert(builder@.bindings =~= seq![]);
        assert(builder@.locals =~= seq![]);
        assert(builder@.nodes =~= seq![]);
        builder
    }

    /// A builder for the initialiser of an item constant.
    pub fn new_for_const(scope: Scope<'hir>) -> (builder: Self)
        ensures
            builder.wf(),
            builder@ == Body::for_const(scope@),
            builder.scope == scope,
    {
        let env: Vec<(&'hir str, Type)> = Vec::new();
        let env = scope.arena.place_slice(&env);
        assert(Seq::<(&'hir str, Type)>::empty() =~= seq![]);
        let mut marks: Vec<usize> = Vec::new();
        marks.push(0);
        assert(marks@ =~= seq![0usize]);
        let generics: Vec<GenericBound<'hir>> = Vec::new();
        let generics = scope.arena.place_slice(&generics);
        assert(Seq::<GenericBound<'hir>>::empty() =~= seq![]);
        let builder = FunctionBuilder {
            scope,
            locals: Vec::new(),
            bindings: Vec::new(),
            marks,
            nodes: Vec::new(),
            infer: InferTable::new(),
            return_type: Type::new(TypeKind::Unit),
            impl_type: None,
            generics,
            is_const: true,
            in_const: false,
            loops: 0,
            self_type: None,
            env,
        };
        assert(builder@.bindings =~= seq![]);
        assert(builder@.locals =~= seq![]);
        assert(builder@.nodes =~= seq![]);
        builder
    }

    fn declare_params(
        &mut self,
        params: &'hir Vec<ast::Parameter<'hir>>,
        types: &'hir [Type],
        receiver: Vec<Parameter>,
    ) -> (outcome: Result<Vec<Parameter>, HirError<&'hir str>>)
        requires
            old(self).wf(),
        ensures
            final(self).wf(),
            (final(self)@, seen_params(outcome)) == old(self)@.declare_params(
                params@,
                types@,
                0,
                receiver@,
            ),
    {
        let mut declared = receiver;
        let mut i: usize = 0;
        while i < params.len() && i < types.len()
            invariant
                self.wf(),
                i <= params@.len(),
                i <= types@.len(),
                old(self)@.declare_params(params@, types@, 0, receiver@) == self@.declare_params(
                    params@,
                    types@,
                    i as nat,
                    declared@,
                ),
            decreases params@.len() - i,
        {
            let param = params[i];
            let typ = types[i];
            let symbol = self.insert(param.name);
            match self.declare_local(symbol, typ, param.mutable, param.span) {
                Err(error) => {
                    return Err(error);
                },
                Ok(id) => {
                    declared.push(Parameter { id, name: symbol, mutable: param.mutable, typ });
                },
            }
            i += 1;
        }
        Ok(declared)
    }

    fn declare_receiver(
        &mut self,
        function: &'hir ast::Function<'hir>,
        signature: FunctionSignature<'hir>,
    ) -> (outcome: Result<Vec<Parameter>, HirError<&'hir str>>)
        requires
            old(self).wf(),
        ensures
            final(self).wf(),
            (final(self)@, seen_params(outcome)) == old(self)@.declare_receiver(
                *function,
                signature,
            ),
    {
        let mut params: Vec<Parameter> = Vec::new();
        match (function.receiver, signature.receiver_type()) {
            (Some(receiver), Some(typ)) => {
                let symbol = self.insert("self");
                match self.declare_local(symbol, typ, receiver.mutable, receiver.span) {
                    Err(error) => {
                        return Err(error);
                    },
                    Ok(id) => {
                        let param = Parameter {
                            id,
                            name: symbol,
                            mutable: receiver.mutable,
                            typ,
                        };
                        params.push(param);
                        assert(params@ =~= seq![param]);
                    },
                }
            },
            _ => {
                assert(params@ =~= seq![]);
            },
        }
        Ok(params)
    }

    fn declared_fn_names(&mut self) -> (symbols: Vec<SymbolId>)
        requires
            old(self).wf(),
        ensures
            final(self).wf(),
            (final(self)@, symbols@) == old(self)@.declared_fn_names(),
            final(self)@.nodes == old(self)@.nodes,
            final(self)@.locals == old(self)@.locals,
            final(self)@.names.arrays == old(self)@.names.arrays,
    {
        let mut symbols: Vec<SymbolId> = Vec::new();
        let env = self.env;
        if !open_env(env) {
            return symbols;
        }
        let mut i: usize = 0;
        while i < env.len()
            invariant
                self.wf(),
                i <= env@.len() <= 256,
                env == self@.env,
                is_open_env(env@),
                self@.nodes == old(self)@.nodes,
                self@.locals == old(self)@.locals,
                self@.names.arrays == old(self)@.names.arrays,
                old(self)@.open_names(0, seq![]) == self@.open_names(i as nat, symbols@),
            decreases env@.len() - i,
        {
            assert(param_position(env@, (i as int) as u8, 0) is Some);
            match find_param(env, i as u8) {
                Some(position) => {
                    let symbol = self.insert(env[position].0);
                    symbols.push(symbol);
                },
                None => {},
            }
            i += 1;
        }
        symbols
    }

    fn check_return(
        &mut self,
        function: &'hir ast::Function<'hir>,
        signature: FunctionSignature<'hir>,
        ends: bool,
    ) -> (outcome: Result<(), HirError<&'hir str>>)
        requires
            old(self).wf(),
        ensures
            final(self).wf(),
            (final(self)@, seen(outcome)) == old(self)@.check_return(*function, signature, ends),
    {
        let expected = signature.return_type;
        let unit = match expected.kind() {
            TypeKind::Unit => true,
            _ => false,
        };
        if ends || unit || expected.diverges() || expected.is_error() {
            return Ok(());
        }
        let name = self.scope.arena.place_str(self.scope.symbols.name(signature.name));
        self.soft(HirError::new(HirErrorKind::MissingReturn { name, expected }, function.span))
    }

    /// Lowers the function the builder was made for, and hands the namespace back.
    pub fn lower(self, id: FunctionId, function: &'hir ast::Function<'hir>) -> (result: (
        Scope<'hir>,
        Result<Function<'hir>, HirError<&'hir str>>,
    ))
        requires
            self.wf(),
        ensures
            ({
                let (body, outcome) = self@.lower_function(id, *function);
                result.0@ == body.names && seen_function(result.1) == outcome
            }),
            result.1 matches Ok(lowered) ==> concrete_function(result.0@.arrays.types, lowered@),
    {
        let mut builder = self;
        let outcome = builder.lower_function(id, function);
        (builder.scope, outcome)
    }

    fn lower_function(&mut self, id: FunctionId, function: &'hir ast::Function<'hir>) -> (outcome:
        Result<Function<'hir>, HirError<&'hir str>>)
        requires
            old(self).wf(),
        ensures
            final(self).wf(),
            (final(self)@, seen_function(outcome)) == old(self)@.lower_function(id, *function),
            outcome matches Ok(lowered) ==> concrete_function(
                final(self)@.names.arrays.types,
                lowered@,
            ),
    {
        let signature = match self.scope.signature(id) {
            None => {
                return Err(
                    HirError::new(
                        HirErrorKind::UnknownFunction { name: function.name },
                        function.span,
                    ),
                );
            },
            Some(signature) => signature,
        };
        self.return_type = signature.return_type;
        let receiver = match self.declare_receiver(function, signature) {
            Err(error) => return Err(error),
            Ok(receiver) => receiver,
        };
        let types = signature.explicit_params();
        let params = match self.declare_params(function.params, types, receiver) {
            Err(error) => return Err(error),
            Ok(params) => params,
        };
        let (body, ends) = match self.lower_block(&function.body, true) {
            Err(error) => return Err(error),
            Ok(lowered) => lowered,
        };
        if let Err(error) = self.check_return(function, signature, ends) {
            return Err(error);
        }
        self.resolve_inference();
        let generics = self.declared_fn_names();
        Ok(
            Function {
                id,
                name: signature.name,
                decl_span: function.span,
                kind: signature.kind,
                params: self.scope.arena.place_slice(&params),
                locals: self.scope.arena.place_slice(&self.locals),
                return_type: signature.return_type,
                is_const: function.is_const,
                is_pub: function.is_pub,
                inline: function.inline,
                typeck: TypeckResults { nodes: self.scope.arena.place_slice(&self.nodes) },
                body,
                generics: self.scope.arena.place_slice(&generics),
            },
        )
    }
}

/// Lowers the initialiser of an item constant of the given type.
pub fn lower_const<'hir>(
    scope: Scope<'hir>,
    expr: &'hir ast::Expression<'hir>,
    expected_type: Type,
) -> (result: (
    Scope<'hir>,
    Result<(&'hir Expression<'hir>, TypeckResults<'hir>), HirError<&'hir str>>,
))
    ensures
        ({
            let (body, outcome) = Body::for_const(scope@).lower_initialiser(
                *expr,
                expected_type,
            );
            result.0@ == body.names && seen_initialiser(result.1) == outcome
        }),
        result.1 matches Ok((_, typeck)) ==> concrete_nodes(
            result.0@.arrays.types,
            typeck.nodes@,
        ),
{
    let mut builder = FunctionBuilder::new_for_const(scope);
    let outcome = match builder.lower_checked(expr, expected_type) {
        Err(error) => Err(error),
        Ok(value) => {
            builder.resolve_inference();
            let typeck = TypeckResults { nodes: builder.scope.arena.place_slice(&builder.nodes) };
            Ok((value.expr, typeck))
        },
    };
    (builder.scope, outcome)
}

} // verus!
