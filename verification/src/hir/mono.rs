//! Monomorphisation of generic functions.
//!
//! A generic function is registered once with an open signature, and its body is kept as a
//! template. Every concrete use that is reachable from the lowered functions gets a body of its
//! own, made by lowering the template again with its parameters bound, and every call is
//! pointed at its instance.

use crate::arena::{lemma_slice_of, slice_of};
use crate::ast;
use crate::ast::Span;
use crate::hir::body::{Body, FunctionBuilder};
use crate::hir::error::{HirError, HirErrorKind};
use crate::hir::growth::lemma_extends_keeps;
use crate::hir::inference_laws::{
    concrete_function, concrete_functions, lemma_kept_constants, lemma_kept_functions,
    lemma_rewritten_functions,
};
use crate::hir::scope::{FunctionSignature, Names, Outcome, Scope};
use crate::hir::table::{get_id, lookup};
use crate::hir::tree::{
    Function, FunctionId, FunctionKind, FunctionTree, Node, Res, TypeckResults,
};
use crate::hir::type_resolver::{
    build_substitution, receiver_param_type, substitution, ResolveCtx, MAX_DEPTH,
};
use crate::hir::types::Type;
use vstd::prelude::*;

verus! {

broadcast use vstd::std_specs::hash::group_hash_axioms;

/// How many instances a program may have: as many as there are ids for them.
pub const MAX_INSTANCES: usize = 0xFFFF_FFFF;

/// A generic function together with its arguments.
pub type Instance<'hir> = (FunctionId, &'hir [Type]);

/// The state of the collection as contracts see it.
pub ghost struct Mono<'hir> {
    pub names: Names<'hir>,
    pub functions: Seq<FunctionTree<'hir>>,
    pub instances: Seq<(Instance<'hir>, FunctionId)>,
    pub worklist: Seq<Instance<'hir>>,
}

/// The generic use at a node, if it is one.
pub open spec fn generic_use<'hir>(names: Names<'hir>, node: Node<'hir>) -> Option<Instance<'hir>> {
    match node.def {
        Some(Res::Function(callee)) => if names.generic_fns.contains_key(callee.0) {
            Some(
                (
                    callee,
                    match node.args {
                        Some(args) => args,
                        None => slice_of(seq![]),
                    },
                ),
            )
        } else {
            None
        },
        _ => None,
    }
}

/// The instance made for a use, from position `at` on.
pub open spec fn instance_of<'hir>(
    instances: Seq<(Instance<'hir>, FunctionId)>,
    key: Instance<'hir>,
    at: int,
) -> Option<FunctionId>
    decreases instances.len() - at,
{
    if at < 0 || at >= instances.len() {
        None
    } else if instances[at].0 == key {
        Some(instances[at].1)
    } else {
        instance_of(instances, key, at + 1)
    }
}

/// The worklist with the generic uses of a body from position `at` on.
pub open spec fn collect_uses<'hir>(
    names: Names<'hir>,
    nodes: Seq<Node<'hir>>,
    at: nat,
    worklist: Seq<Instance<'hir>>,
) -> Seq<Instance<'hir>>
    decreases nodes.len() - at,
{
    if at >= nodes.len() {
        worklist
    } else {
        collect_uses(
            names,
            nodes,
            at + 1,
            match generic_use(names, nodes[at as int]) {
                Some(key) => worklist.push(key),
                None => worklist,
            },
        )
    }
}

/// The worklist with the generic uses of functions from position `at` on.
pub open spec fn collect_all<'hir>(
    names: Names<'hir>,
    functions: Seq<FunctionTree<'hir>>,
    at: nat,
    worklist: Seq<Instance<'hir>>,
) -> Seq<Instance<'hir>>
    decreases functions.len() - at,
{
    if at >= functions.len() {
        worklist
    } else {
        collect_all(
            names,
            functions,
            at + 1,
            collect_uses(names, functions[at as int].nodes, 0, worklist),
        )
    }
}

/// A node with its call pointed at the instance.
pub open spec fn rewrite_node<'hir>(
    names: Names<'hir>,
    instances: Seq<(Instance<'hir>, FunctionId)>,
    node: Node<'hir>,
) -> Node<'hir> {
    match generic_use(names, node) {
        Some(key) => match instance_of(instances, key, 0) {
            Some(id) => Node { def: Some(Res::Function(id)), ..node },
            None => node,
        },
        None => node,
    }
}

/// A function with all its calls pointed at instances.
pub open spec fn rewrite<'hir>(
    names: Names<'hir>,
    instances: Seq<(Instance<'hir>, FunctionId)>,
    function: FunctionTree<'hir>,
) -> FunctionTree<'hir> {
    FunctionTree {
        nodes: Seq::new(
            function.nodes.len(),
            |i: int| rewrite_node(names, instances, function.nodes[i]),
        ),
        ..function
    }
}

impl<'hir> Names<'hir> {
    /// The types the parameters of an instance stand for.
    pub open spec fn instance_env(self, template: ast::Function<'hir>, key: Instance<'hir>) -> Seq<
        (&'hir str, Type),
    > {
        let outer = match lookup(self.generic_fn_envs, key.0.0) {
            Some(env) => env@,
            None => seq![],
        };
        outer + substitution(template.generics@, key.1@)
    }

    /// Makes the body of an instance. It is no code of the standard library, whatever module is
    /// being lowered.
    #[verifier::opaque]
    pub open spec fn specialise(self, key: Instance<'hir>) -> (
        Names<'hir>,
        Outcome<(FunctionId, FunctionTree<'hir>)>,
    ) {
        match (lookup(self.generic_fns, key.0.0), self.signature(key.0)) {
            (Some(template), Some(open)) => {
                let (names, name) = self.insert(
                    self.mangle_generic(self.name(open.name), key.1@),
                );
                let env = names.instance_env(*template, key);
                let receiver = match open.kind {
                    FunctionKind::Method(method) => Some(method.receiver),
                    _ => None,
                };
                let ctx = ResolveCtx::items_spec(receiver, env);
                let first = match (template.receiver, receiver) {
                    (Some(r), Some(receiver)) => seq![receiver_param_type(receiver, r.mutable)],
                    _ => seq![],
                };
                match names.resolve_params(template.params@, 0, first, ctx, MAX_DEPTH as nat) {
                    (names, Err(error)) => (names, Err(error)),
                    (names, Ok(params)) => match names.resolve_return_type(
                        template.return_type,
                        ctx,
                        MAX_DEPTH as nat,
                    ) {
                        (names, Err(error)) => (names, Err(error)),
                        (names, Ok(return_type)) => {
                            let (names, id) = names.push_signature(
                                FunctionSignature {
                                    name,
                                    params: slice_of(params),
                                    return_type,
                                    kind: open.kind,
                                    is_const: open.is_const,
                                },
                            );
                            let names = if open.kind is Free {
                                Names { functions: names.functions.insert(name.0, id), ..names }
                            } else {
                                names
                            };
                            let (body, outcome) = Body::for_function(
                                Names { in_std: false, ..names },
                                template,
                                slice_of(env),
                            ).lower_function(id, *template);
                            (
                                Names { in_std: names.in_std, ..body.names },
                                match outcome {
                                    Err(error) => Err(error),
                                    Ok(function) => Ok((id, function)),
                                },
                            )
                        },
                    },
                }
            },
            _ => (
                self,
                Err(
                    HirError::new(
                        HirErrorKind::UnknownFunction { name: Seq::empty() },
                        crate::ast::no_span(),
                    ),
                ),
            ),
        }
    }
}

impl<'hir> Mono<'hir> {
    /// No type of any of the functions holds an inference variable.
    pub open spec fn all_concrete(self) -> bool {
        concrete_functions(self.names.arrays.types, self.functions)
    }

    /// Makes an instance for every use on the worklist, and for those found on the way.
    pub open spec fn run(self, fuel: nat) -> (Mono<'hir>, Outcome<()>)
        decreases fuel, self.worklist.len(),
    {
        if self.worklist.len() == 0 {
            (self, Ok(()))
        } else {
            let key = self.worklist.last();
            let rest = Mono { worklist: self.worklist.drop_last(), ..self };
            match rest.step(key, fuel) {
                (mono, Err(error)) => (mono, Err(error)),
                (mono, Ok(true)) => if fuel > 0 {
                    mono.run((fuel - 1) as nat)
                } else {
                    (mono, Ok(()))
                },
                (_, Ok(false)) => rest.run(fuel),
            }
        }
    }
}

impl<'hir> Names<'hir> {
    /// The functions with an instance for every reachable generic use, and every generic call
    /// pointed at its instance.
    pub open spec fn monomorphise(self, functions: Seq<FunctionTree<'hir>>) -> (
        Names<'hir>,
        Outcome<Seq<FunctionTree<'hir>>>,
    ) {
        let start = Mono {
            names: self,
            functions,
            instances: seq![],
            worklist: collect_all(self, functions, 0, seq![]),
        };
        match start.run(MAX_INSTANCES as nat) {
            (mono, Err(error)) => (mono.names, Err(error)),
            (mono, Ok(_)) => (
                mono.names,
                Ok(rewrite_all(mono.names, mono.instances, mono.functions)),
            ),
        }
    }
}

/// Functions with all their calls pointed at instances.
pub open spec fn rewrite_all<'hir>(
    names: Names<'hir>,
    instances: Seq<(Instance<'hir>, FunctionId)>,
    functions: Seq<FunctionTree<'hir>>,
) -> Seq<FunctionTree<'hir>> {
    Seq::new(functions.len(), |i: int| rewrite(names, instances, functions[i]))
}

/// The collection of instances.
struct Collector<'hir> {
    scope: Scope<'hir>,
    functions: Vec<Function<'hir>>,
    instances: Vec<(Instance<'hir>, FunctionId)>,
    worklist: Vec<Instance<'hir>>,
}

impl<'hir> View for Collector<'hir> {
    type V = Mono<'hir>;

    closed spec fn view(&self) -> Mono<'hir> {
        Mono {
            names: self.scope@,
            functions: function_trees(self.functions@),
            instances: self.instances@,
            worklist: self.worklist@,
        }
    }
}

impl<'hir> Mono<'hir> {
    /// The state after taking one use off the worklist. `fresh` tells whether it is a new one.
    #[verifier::opaque]
    pub open spec fn step(self, key: Instance<'hir>, fuel: nat) -> (Mono<'hir>, Outcome<bool>) {
        if instance_of(self.instances, key, 0) is Some {
            (self, Ok(false))
        } else if fuel == 0 {
            (
                self,
                Err(
                    HirError::new(
                        HirErrorKind::InstantiationTooDeep {
                            name: match self.names.signature(key.0) {
                                Some(signature) => self.names.name(signature.name),
                                None => Seq::empty(),
                            },
                        },
                        crate::ast::no_span(),
                    ),
                ),
            )
        } else {
            match self.names.specialise(key) {
                (names, Err(error)) => (Mono { names, ..self }, Err(error)),
                (names, Ok((id, function))) => (
                    Mono {
                        names,
                        functions: self.functions.push(function),
                        instances: self.instances.push((key, id)),
                        worklist: collect_uses(names, function.nodes, 0, self.worklist),
                    },
                    Ok(true),
                ),
            }
        }
    }
}

/// Whether no use has two instances.
pub open spec fn is_distinct<'hir>(instances: Seq<(Instance<'hir>, FunctionId)>) -> bool {
    forall|i: int, j: int|
        0 <= i < j < instances.len() ==> (#[trigger] instances[i]).0 != (#[trigger] instances[j]).0
}

pub(crate) proof fn lemma_instance_found<'hir>(
    instances: Seq<(Instance<'hir>, FunctionId)>,
    key: Instance<'hir>,
    at: int,
)
    requires
        0 <= at,
    ensures
        instance_of(instances, key, at) is Some <==> exists|i: int|
            at <= i < instances.len() && (#[trigger] instances[i]).0 == key,
    decreases instances.len() - at,
{
    if at < instances.len() && instances[at].0 != key {
        lemma_instance_found(instances, key, at + 1);
    }
}

pub(crate) proof fn lemma_collect_uses<'hir>(
    names: Names<'hir>,
    nodes: Seq<Node<'hir>>,
    at: nat,
    worklist: Seq<Instance<'hir>>,
)
    ensures
        worklist.is_prefix_of(collect_uses(names, nodes, at, worklist)),
    decreases nodes.len() - at,
{
    if at < nodes.len() {
        let next = match generic_use(names, nodes[at as int]) {
            Some(key) => worklist.push(key),
            None => worklist,
        };
        lemma_collect_uses(names, nodes, at + 1, next);
    }
}

/// What taking a use off the worklist does to the instances and the functions.
pub(crate) proof fn lemma_step<'hir>(mono: Mono<'hir>, key: Instance<'hir>, fuel: nat)
    ensures
        ({
            let (after, outcome) = mono.step(key, fuel);
            match outcome {
                Ok(true) => {
                    &&& fuel > 0
                    &&& instance_of(mono.instances, key, 0) is None
                    &&& after.instances.len() == mono.instances.len() + 1
                    &&& mono.instances.is_prefix_of(after.instances)
                    &&& after.instances.last().0 == key
                    &&& mono.functions.is_prefix_of(after.functions)
                    &&& mono.worklist.is_prefix_of(after.worklist)
                },
                Ok(false) => after == mono && instance_of(mono.instances, key, 0) is Some,
                Err(_) => after.instances == mono.instances && after.functions == mono.functions,
            }
        }),
{
    reveal(Mono::step);
    if let (after, Ok(true)) = mono.step(key, fuel) {
        lemma_collect_uses(after.names, after.functions.last().nodes, 0, mono.worklist);
    }
}

/// When all uses are worked off, every use on the worklist has exactly one instance, and the
/// instances and functions made before are still there.
pub proof fn lemma_one_instance_per_use<'hir>(mono: Mono<'hir>, fuel: nat)
    requires
        is_distinct(mono.instances),
    ensures
        ({
            let (after, outcome) = mono.run(fuel);
            &&& is_distinct(after.instances)
            &&& mono.instances.is_prefix_of(after.instances)
            &&& mono.functions.is_prefix_of(after.functions)
            &&& outcome is Ok ==> forall|i: int|
                0 <= i < mono.worklist.len() ==> instance_of(
                    after.instances,
                    #[trigger] mono.worklist[i],
                    0,
                ) is Some
        }),
    decreases fuel, mono.worklist.len(),
{
    if mono.worklist.len() > 0 {
        let key = mono.worklist.last();
        let rest = Mono { worklist: mono.worklist.drop_last(), ..mono };
        let (after, outcome) = mono.run(fuel);
        lemma_step(rest, key, fuel);
        match rest.step(key, fuel) {
            (stepped, Err(error)) => {},
            (stepped, Ok(true)) => {
                lemma_instance_found(rest.instances, key, 0);
                let old_count = rest.instances.len() as int;
                assert forall|i: int, j: int|
                    0 <= i < j < stepped.instances.len() implies (#[trigger] stepped.instances[i]).0
                    != (#[trigger] stepped.instances[j]).0 by {
                    assert(stepped.instances.subrange(0, old_count)[i] == stepped.instances[i]);
                    if j < old_count {
                        assert(stepped.instances.subrange(0, old_count)[j] == stepped.instances[j]);
                    }
                }
                lemma_one_instance_per_use(stepped, (fuel - 1) as nat);
                if outcome is Ok {
                    assert forall|i: int| 0 <= i < mono.worklist.len() implies instance_of(
                        after.instances,
                        #[trigger] mono.worklist[i],
                        0,
                    ) is Some by {
                        if i < rest.worklist.len() {
                            let kept = rest.worklist.len() as int;
                            assert(stepped.worklist.subrange(0, kept)[i] == stepped.worklist[i]);
                            assert(stepped.worklist[i] == mono.worklist[i]);
                        } else {
                            let at = stepped.instances.len() - 1;
                            assert(after.instances.subrange(0, at + 1)[at] == after.instances[at]);
                            assert(after.instances[at].0 == key);
                            lemma_instance_found(after.instances, key, 0);
                        }
                    }
                }
            },
            (_, Ok(false)) => {
                lemma_one_instance_per_use(rest, fuel);
                if outcome is Ok {
                    assert forall|i: int| 0 <= i < mono.worklist.len() implies instance_of(
                        after.instances,
                        #[trigger] mono.worklist[i],
                        0,
                    ) is Some by {
                        if i < rest.worklist.len() {
                            assert(rest.worklist[i] == mono.worklist[i]);
                        } else {
                            lemma_instance_found(rest.instances, key, 0);
                            let at = choose|at: int|
                                0 <= at < rest.instances.len() && (#[trigger] rest.instances[at]).0
                                    == key;
                            let kept = rest.instances.len() as int;
                            assert(after.instances.subrange(0, kept)[at] == after.instances[at]);
                            assert(after.instances[at].0 == key);
                            lemma_instance_found(after.instances, key, 0);
                        }
                    }
                }
            },
        }
    }
}

/// A list of functions as contracts see it.
pub open spec fn function_trees<'hir>(functions: Seq<Function<'hir>>) -> Seq<FunctionTree<'hir>> {
    Seq::new(functions.len(), |i: int| functions[i]@)
}

/// The outcome of lowering functions as contracts see it.
pub open spec fn seen_functions<'hir>(
    result: Result<Vec<Function<'hir>>, HirError<&'hir str>>,
) -> Outcome<Seq<FunctionTree<'hir>>> {
    match result {
        Ok(functions) => Ok(function_trees(functions@)),
        Err(error) => Err(error@),
    }
}

pub open spec fn seen_instance<'hir>(
    result: Result<(FunctionId, Function<'hir>), HirError<&'hir str>>,
) -> Outcome<(FunctionId, FunctionTree<'hir>)> {
    match result {
        Ok((id, function)) => Ok((id, function@)),
        Err(error) => Err(error@),
    }
}

fn same_types(a: &[Type], b: &[Type]) -> (same: bool)
    ensures
        same == (a == b),
{
    proof {
        lemma_slice_of(a);
        lemma_slice_of(b);
    }
    if a.len() != b.len() {
        return false;
    }
    let mut i: usize = 0;
    while i < a.len()
        invariant
            i <= a@.len() == b@.len(),
            forall|j: int| 0 <= j < i ==> a@[j] == b@[j],
        decreases a@.len() - i,
    {
        if a[i] != b[i] {
            return false;
        }
        i += 1;
    }
    assert(a@ =~= b@);
    true
}

fn find_instance<'hir>(instances: &Vec<(Instance<'hir>, FunctionId)>, key: Instance<'hir>) -> (id:
    Option<FunctionId>)
    ensures
        id == instance_of(instances@, key, 0),
{
    let mut i: usize = 0;
    while i < instances.len()
        invariant
            i <= instances@.len(),
            instance_of(instances@, key, 0) == instance_of(instances@, key, i as int),
        decreases instances@.len() - i,
    {
        let ((callee, args), id) = instances[i];
        if callee == key.0 && same_types(args, key.1) {
            return Some(id);
        }
        i += 1;
    }
    None
}

impl<'hir> Scope<'hir> {
    fn generic_use(&self, node: Node<'hir>) -> (key: Option<Instance<'hir>>)
        ensures
            key == generic_use(self@, node),
    {
        match node.def {
            Some(Res::Function(callee)) => if self.generic_fns.contains_key(&callee.0) {
                let args = match node.args {
                    Some(args) => args,
                    None => {
                        let none: Vec<Type> = Vec::new();
                        assert(none@ =~= seq![]);
                        self.arena.place_slice(&none)
                    },
                };
                Some((callee, args))
            } else {
                None
            },
            _ => None,
        }
    }

    fn collect_uses(&self, function: &Function<'hir>, worklist: &mut Vec<Instance<'hir>>)
        ensures
            final(worklist)@ == collect_uses(self@, function@.nodes, 0, old(worklist)@),
    {
        let nodes = function.typeck.nodes;
        let mut i: usize = 0;
        while i < nodes.len()
            invariant
                i <= nodes@.len(),
                collect_uses(self@, nodes@, 0, old(worklist)@) == collect_uses(
                    self@,
                    nodes@,
                    i as nat,
                    worklist@,
                ),
            decreases nodes@.len() - i,
        {
            if let Some(key) = self.generic_use(nodes[i]) {
                worklist.push(key);
            }
            i += 1;
        }
    }

    fn rewrite(&self, instances: &Vec<(Instance<'hir>, FunctionId)>, function: &Function<'hir>) -> (rewritten:
        Function<'hir>)
        ensures
            rewritten@ == rewrite(self@, instances@, function@),
    {
        let nodes = function.typeck.nodes;
        let mut after: Vec<Node<'hir>> = Vec::new();
        let ghost all = rewrite(self@, instances@, function@).nodes;
        let mut i: usize = 0;
        while i < nodes.len()
            invariant
                i <= nodes@.len(),
                all.len() == nodes@.len(),
                forall|j: int|
                    0 <= j < nodes@.len() ==> #[trigger] all[j] == rewrite_node(
                        self@,
                        instances@,
                        nodes@[j],
                    ),
                after@ =~= all.take(i as int),
            decreases nodes@.len() - i,
        {
            let node = nodes[i];
            let rewritten = match self.generic_use(node) {
                Some(key) => match find_instance(instances, key) {
                    Some(id) => Node { def: Some(Res::Function(id)), ..node },
                    None => node,
                },
                None => node,
            };
            after.push(rewritten);
            i += 1;
        }
        assert(after@ =~= all);
        Function {
            typeck: TypeckResults { nodes: self.arena.place_slice(&after) },
            ..*function
        }
    }

    fn instance_env(&self, template: &'hir ast::Function<'hir>, key: Instance<'hir>) -> (env: Vec<
        (&'hir str, Type),
    >)
        ensures
            env@ == self@.instance_env(*template, key),
    {
        let mut env: Vec<(&'hir str, Type)> = Vec::new();
        if let Some(outer) = get_id(&self.generic_fn_envs, key.0.0) {
            let mut i: usize = 0;
            while i < outer.len()
                invariant
                    i <= outer@.len(),
                    env@ =~= outer@.take(i as int),
                decreases outer@.len() - i,
            {
                env.push(outer[i]);
                i += 1;
            }
            assert(env@ =~= outer@);
        }
        let mut own = build_substitution(template.generics, key.1);
        env.append(&mut own);
        assert(env@ =~= self@.instance_env(*template, key));
        env
    }

    /// Makes the body of an instance.
    fn specialise(self, key: Instance<'hir>) -> (result: (
        Scope<'hir>,
        Result<(FunctionId, Function<'hir>), HirError<&'hir str>>,
    ))
        ensures
            (result.0@, seen_instance(result.1)) == self@.specialise(key),
            result.1 matches Ok((_, function)) ==> concrete_function(
                result.0@.arrays.types,
                function@,
            ),
    {
        proof {
            reveal(Names::specialise);
        }
        let mut scope = self;
        let (template, open) = match (get_id(&scope.generic_fns, key.0.0), scope.signature(key.0)) {
            (Some(template), Some(open)) => (template, open),
            _ => {
                proof {
                    reveal_strlit("");
                    assert(""@ =~= Seq::<char>::empty());
                }
                return (
                    scope,
                    Err(
                        HirError::new(
                            HirErrorKind::UnknownFunction { name: "" },
                            Span { start: 0, end: 0 },
                        ),
                    ),
                );
            },
        };
        let mangled = scope.mangle_generic(scope.symbols.name(open.name), key.1);
        let name = scope.insert(mangled.as_str());
        let env = scope.instance_env(template, key);
        let receiver = match open.kind {
            FunctionKind::Method(method) => Some(method.receiver),
            _ => None,
        };
        let ctx = ResolveCtx::items(scope.arena, receiver, &env);
        let mut first: Vec<Type> = Vec::new();
        if let (Some(r), Some(receiver)) = (template.receiver, receiver) {
            first.push(receiver_param_type(receiver, r.mutable));
        }
        assert(first@ =~= (match (template.receiver, receiver) {
            (Some(r), Some(receiver)) => seq![receiver_param_type(receiver, r.mutable)],
            _ => seq![],
        }));
        let params = match scope.resolve_params(template.params, first, ctx, MAX_DEPTH) {
            Err(error) => return (scope, Err(error)),
            Ok(params) => params,
        };
        let return_type = match scope.resolve_return_type(&template.return_type, ctx, MAX_DEPTH) {
            Err(error) => return (scope, Err(error)),
            Ok(return_type) => return_type,
        };
        let params = scope.arena.place_slice(&params);
        let id = scope.push_signature(
            FunctionSignature {
                name,
                params,
                return_type,
                kind: open.kind,
                is_const: open.is_const,
            },
        );
        if let FunctionKind::Free = open.kind {
            scope.functions.insert(name.0, id);
        }
        let env = scope.arena.place_slice(&env);
        let in_std = scope.in_std;
        scope.in_std = false;
        let (mut scope, outcome) = FunctionBuilder::new_instance(scope, template, env).lower(
            id,
            template,
        );
        scope.in_std = in_std;
        match outcome {
            Err(error) => (scope, Err(error)),
            Ok(function) => (scope, Ok((id, function))),
        }
    }

    /// Makes an instance for every generic use that is reachable from `functions`, and points
    /// every generic call at its instance.
    pub fn monomorphise(self, functions: Vec<Function<'hir>>) -> (result: (
        Scope<'hir>,
        Result<Vec<Function<'hir>>, HirError<&'hir str>>,
    ))
        ensures
            (result.0@, seen_functions(result.1)) == self@.monomorphise(function_trees(functions@)),
            concrete_functions(self@.arrays.types, function_trees(functions@)) ==> {
                result.1 matches Ok(all) ==> concrete_functions(
                    result.0@.arrays.types,
                    function_trees(all@),
                )
            },
            self@.constants_concrete() ==> result.0@.constants_concrete(),
    {
        let worklist = self.collect_all(&functions);
        let instances: Vec<(Instance<'hir>, FunctionId)> = Vec::new();
        assert(instances@ =~= seq![]);
        let collector = Collector { scope: self, functions, instances, worklist };
        let ghost start = collector@;
        let (collector, outcome) = collector.run();
        proof {
            start.lemma_run_grows(MAX_INSTANCES as nat);
            if self@.constants_concrete() {
                lemma_kept_constants(self@, collector@.names);
            }
        }
        match outcome {
            Err(error) => (collector.scope, Err(error)),
            Ok(_) => {
                let ghost arrays = collector@.names.arrays.types;
                let ghost made = collector@;
                let functions = collector.rewrite_all();
                proof {
                    if concrete_functions(arrays, made.functions) {
                        lemma_rewritten_functions(
                            arrays,
                            made.names,
                            made.instances,
                            made.functions,
                        );
                    }
                }
                (collector.scope, Ok(functions))
            },
        }
    }

    fn collect_all(&self, functions: &Vec<Function<'hir>>) -> (worklist: Vec<Instance<'hir>>)
        ensures
            worklist@ == collect_all(self@, function_trees(functions@), 0, seq![]),
    {
        let mut worklist: Vec<Instance<'hir>> = Vec::new();
        let ghost input = function_trees(functions@);
        let mut i: usize = 0;
        while i < functions.len()
            invariant
                i <= functions@.len(),
                input == function_trees(functions@),
                collect_all(self@, input, 0, seq![]) == collect_all(
                    self@,
                    input,
                    i as nat,
                    worklist@,
                ),
            decreases functions@.len() - i,
        {
            self.collect_uses(&functions[i], &mut worklist);
            i += 1;
        }
        worklist
    }
}

impl<'hir> Collector<'hir> {
    fn step(self, key: Instance<'hir>, fuel: usize) -> (result: (
        Collector<'hir>,
        Result<bool, HirError<&'hir str>>,
    ))
        ensures
            (result.0@, crate::hir::error::seen(result.1)) == self@.step(key, fuel as nat),
            self@.all_concrete() ==> result.0@.all_concrete(),
    {
        proof {
            reveal(Mono::step);
        }
        if find_instance(&self.instances, key).is_some() {
            return (self, Ok(false));
        }
        if fuel == 0 {
            let name: &'hir str = match self.scope.signature(key.0) {
                Some(signature) => self.scope.arena.place_str(
                    self.scope.symbols.name(signature.name),
                ),
                None => {
                    proof {
                        reveal_strlit("");
                        assert(""@ =~= Seq::<char>::empty());
                    }
                    ""
                },
            };
            let deep = HirError::new(
                HirErrorKind::InstantiationTooDeep { name },
                Span { start: 0, end: 0 },
            );
            return (self, Err(deep));
        }
        let Collector { scope, functions, instances, worklist } = self;
        let mut functions = functions;
        let mut instances = instances;
        let mut worklist = worklist;
        let ghost start = scope@;
        let (scope, outcome) = scope.specialise(key);
        proof {
            start.lemma_specialise_grows(key);
            lemma_extends_keeps(start.ledger(), scope@.ledger());
            if self@.all_concrete() {
                lemma_kept_functions(start.arrays, scope@.arrays, self@.functions);
            }
        }
        match outcome {
            Err(error) => (Collector { scope, functions, instances, worklist }, Err(error)),
            Ok((id, function)) => {
                let ghost before = functions@;
                instances.push((key, id));
                scope.collect_uses(&function, &mut worklist);
                functions.push(function);
                assert(function_trees(functions@) =~= function_trees(before).push(function@));
                (Collector { scope, functions, instances, worklist }, Ok(true))
            },
        }
    }

    fn run(self) -> (result: (Collector<'hir>, Result<(), HirError<&'hir str>>))
        ensures
            (result.0@, crate::hir::error::seen(result.1)) == self@.run(MAX_INSTANCES as nat),
            self@.all_concrete() ==> result.0@.all_concrete(),
    {
        let mut collector = self;
        let mut fuel: usize = MAX_INSTANCES;
        while collector.worklist.len() > 0
            invariant
                self@.run(MAX_INSTANCES as nat) == collector@.run(fuel as nat),
                self@.all_concrete() ==> collector@.all_concrete(),
            decreases fuel, collector.worklist@.len(),
        {
            let ghost before = collector@;
            let last: usize = collector.worklist.len() - 1;
            let key = collector.worklist[last];
            collector.worklist.truncate(last);
            assert(collector.worklist@ =~= before.worklist.drop_last());
            assert(collector@ == (Mono { worklist: before.worklist.drop_last(), ..before }));
            proof {
                lemma_step(collector@, key, fuel as nat);
            }
            let (next, outcome) = collector.step(key, fuel);
            collector = next;
            match outcome {
                Err(error) => {
                    return (collector, Err(error));
                },
                Ok(true) => {
                    fuel -= 1;
                },
                Ok(false) => {},
            }
        }
        (collector, Ok(()))
    }

    fn rewrite_all(&self) -> (rewritten: Vec<Function<'hir>>)
        ensures
            function_trees(rewritten@) == rewrite_all(
                self@.names,
                self@.instances,
                self@.functions,
            ),
    {
        let mut rewritten: Vec<Function<'hir>> = Vec::new();
        let ghost all = rewrite_all(self@.names, self@.instances, self@.functions);
        let mut i: usize = 0;
        while i < self.functions.len()
            invariant
                i <= self.functions@.len(),
                all.len() == self.functions@.len(),
                all == rewrite_all(
                    self.scope@,
                    self.instances@,
                    function_trees(self.functions@),
                ),
                function_trees(rewritten@) =~= all.take(i as int),
            decreases self.functions@.len() - i,
        {
            let ghost before = rewritten@;
            let function = self.scope.rewrite(&self.instances, &self.functions[i]);
            rewritten.push(function);
            assert(function_trees(rewritten@) =~= function_trees(before).push(function@));
            assert(all[i as int] == function@);
            i += 1;
        }
        assert(function_trees(rewritten@) =~= all);
        rewritten
    }
}

} // verus!
