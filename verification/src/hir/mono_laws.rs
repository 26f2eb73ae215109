//! What monomorphisation leaves behind: no call to a generic function.

use crate::hir::growth::{extends, lemma_extends_same, lemma_extends_trans};
use crate::hir::mono::{
    collect_all, collect_uses, generic_use, instance_of, lemma_collect_uses, lemma_instance_found,
    lemma_step, rewrite_node, Instance, Mono, MAX_INSTANCES,
};
use crate::hir::scope::Names;
use crate::hir::tree::{FunctionId, FunctionTree, Node, Res};
use vstd::prelude::*;

verus! {

/// Every generic use in a body waits on the worklist or has an instance.
spec fn listed<'hir>(start: Names<'hir>, mono: Mono<'hir>, nodes: Seq<Node<'hir>>) -> bool {
    forall|i: int|
        0 <= i < nodes.len() ==> match generic_use(start, #[trigger] nodes[i]) {
            Some(key) => mono.worklist.contains(key) || instance_of(
                mono.instances,
                key,
                0,
            ) is Some,
            None => true,
        }
}

/// Every generic use in a body has an instance.
pub open spec fn served<'hir>(
    start: Names<'hir>,
    instances: Seq<(Instance<'hir>, FunctionId)>,
    nodes: Seq<Node<'hir>>,
) -> bool {
    forall|i: int|
        0 <= i < nodes.len() ==> match generic_use(start, #[trigger] nodes[i]) {
            Some(key) => instance_of(instances, key, 0) is Some,
            None => true,
        }
}

/// No instance has the id of a function that was there at the start.
spec fn all_new<'hir>(start: Names<'hir>, instances: Seq<(Instance<'hir>, FunctionId)>) -> bool {
    forall|i: int|
        0 <= i < instances.len() ==> (#[trigger] instances[i]).1.0 >= start.signatures.len()
}

/// Only functions that have a signature are templates.
pub open spec fn templates_declared<'hir>(names: Names<'hir>) -> bool {
    forall|id: u32| #[trigger]
        names.generic_fns.contains_key(id) ==> id < names.signatures.len()
}

/// No call in a body goes to one of the templates.
pub open spec fn calls_no_template<'hir>(names: Names<'hir>, nodes: Seq<Node<'hir>>) -> bool {
    forall|i: int|
        0 <= i < nodes.len() ==> match (#[trigger] nodes[i]).def {
            Some(Res::Function(callee)) => !names.generic_fns.contains_key(callee.0),
            _ => true,
        }
}

proof fn lemma_uses_listed<'hir>(
    names: Names<'hir>,
    nodes: Seq<Node<'hir>>,
    at: nat,
    worklist: Seq<Instance<'hir>>,
)
    ensures
        forall|i: int|
            at <= i < nodes.len() ==> match generic_use(names, #[trigger] nodes[i]) {
                Some(key) => collect_uses(names, nodes, at, worklist).contains(key),
                None => true,
            },
    decreases nodes.len() - at,
{
    if at < nodes.len() {
        let next = match generic_use(names, nodes[at as int]) {
            Some(key) => worklist.push(key),
            None => worklist,
        };
        lemma_uses_listed(names, nodes, at + 1, next);
        lemma_collect_uses(names, nodes, at + 1, next);
        if let Some(key) = generic_use(names, nodes[at as int]) {
            let all = collect_uses(names, nodes, at, worklist);
            let last = worklist.len() as int;
            assert(next[last] == key);
            assert(all.subrange(0, next.len() as int)[last] == all[last]);
        }
    }
}

proof fn lemma_all_listed<'hir>(
    names: Names<'hir>,
    functions: Seq<FunctionTree<'hir>>,
    at: nat,
    worklist: Seq<Instance<'hir>>,
)
    ensures
        forall|key: Instance<'hir>| #[trigger]
            worklist.contains(key) ==> collect_all(names, functions, at, worklist).contains(key),
        forall|f: int, i: int|
            at <= f < functions.len() && 0 <= i < functions[f].nodes.len() ==> match generic_use(
                names,
                #[trigger] functions[f].nodes[i],
            ) {
                Some(key) => collect_all(names, functions, at, worklist).contains(key),
                None => true,
            },
    decreases functions.len() - at,
{
    if at < functions.len() {
        let nodes = functions[at as int].nodes;
        let next = collect_uses(names, nodes, 0, worklist);
        lemma_uses_listed(names, nodes, 0, worklist);
        lemma_collect_uses(names, nodes, 0, worklist);
        lemma_all_listed(names, functions, at + 1, next);
        assert forall|key: Instance<'hir>| worklist.contains(key) implies next.contains(key) by {
            let i = worklist.index_of(key);
            assert(next.subrange(0, worklist.len() as int)[i] == next[i]);
        }
    }
}

proof fn lemma_still_served<'hir>(
    before: Seq<(Instance<'hir>, FunctionId)>,
    after: Seq<(Instance<'hir>, FunctionId)>,
    key: Instance<'hir>,
)
    requires
        before.is_prefix_of(after),
        instance_of(before, key, 0) is Some,
    ensures
        instance_of(after, key, 0) is Some,
{
    lemma_instance_found(before, key, 0);
    lemma_instance_found(after, key, 0);
    let i = choose|i: int| 0 <= i < before.len() && (#[trigger] before[i]).0 == key;
    assert(after.subrange(0, before.len() as int)[i] == after[i]);
}

/// A new instance has an id that no function had before.
proof fn lemma_specialised<'hir>(names: Names<'hir>, key: Instance<'hir>)
    requires
        names.specialise(key).1 is Ok,
        names.specialise(key).0.signatures.len() <= u32::MAX,
    ensures
        names.specialise(key).1->Ok_0.0.0 >= names.signatures.len(),
{
    broadcast use {
        lemma_extends_same, lemma_extends_trans,
        crate::hir::body::Body::lemma_lower_function_grows, Names::lemma_insert_grows,
        Names::lemma_push_signature_grows, Names::lemma_resolve_params_grows,
        Names::lemma_resolve_return_type_grows,
    };

    reveal(extends);
    reveal(Names::specialise);
}

/// What making an instance does to the state.
proof fn lemma_made<'hir>(mono: Mono<'hir>, key: Instance<'hir>, fuel: nat)
    requires
        mono.step(key, fuel).1 matches Ok(fresh) && fresh,
    ensures
        ({
            let after = mono.step(key, fuel).0;
            let (names, made) = mono.names.specialise(key);
            &&& made is Ok
            &&& after.names == names
            &&& after.functions == mono.functions.push(made->Ok_0.1)
            &&& after.instances == mono.instances.push((key, made->Ok_0.0))
            &&& after.worklist == collect_uses(names, made->Ok_0.1.nodes, 0, mono.worklist)
        }),
{
    reveal(Mono::step);
}

/// A body that was listed before a use was taken off stays listed, once the use has an instance.
proof fn lemma_stays_listed<'hir>(
    start: Names<'hir>,
    mono: Mono<'hir>,
    after: Mono<'hir>,
    key: Instance<'hir>,
    nodes: Seq<Node<'hir>>,
)
    requires
        listed(start, Mono { worklist: mono.worklist.push(key), ..mono }, nodes),
        mono.worklist.is_prefix_of(after.worklist),
        mono.instances.is_prefix_of(after.instances),
        instance_of(after.instances, key, 0) is Some,
    ensures
        listed(start, after, nodes),
{
    assert forall|i: int| 0 <= i < nodes.len() implies match generic_use(
        start,
        #[trigger] nodes[i],
    ) {
        Some(used) => after.worklist.contains(used) || instance_of(
            after.instances,
            used,
            0,
        ) is Some,
        None => true,
    } by {
        if let Some(used) = generic_use(start, nodes[i]) {
            lemma_carried(mono, after, key, used);
        }
    }
}

/// The uses of a new body are listed once they are collected.
proof fn lemma_new_listed<'hir>(
    start: Names<'hir>,
    names: Names<'hir>,
    after: Mono<'hir>,
    nodes: Seq<Node<'hir>>,
    worklist: Seq<Instance<'hir>>,
)
    requires
        extends(start.ledger(), names.ledger()),
        after.worklist == collect_uses(names, nodes, 0, worklist),
    ensures
        listed(start, after, nodes),
{
    lemma_uses_listed(names, nodes, 0, worklist);
    assert forall|i: int| 0 <= i < nodes.len() implies match generic_use(
        start,
        #[trigger] nodes[i],
    ) {
        Some(used) => after.worklist.contains(used) || instance_of(
            after.instances,
            used,
            0,
        ) is Some,
        None => true,
    } by {
        lemma_still_generic(start, names, nodes[i]);
    }
}

/// What is a use of a template stays one.
proof fn lemma_still_generic<'hir>(start: Names<'hir>, names: Names<'hir>, node: Node<'hir>)
    requires
        extends(start.ledger(), names.ledger()),
    ensures
        generic_use(start, node) is Some ==> generic_use(names, node) == generic_use(start, node),
{
    reveal(extends);
    if let Some(Res::Function(callee)) = node.def {
        assert(start.ledger().templates.contains_key(callee.0)
            ==> names.ledger().templates.contains_key(callee.0));
    }
}

/// Taking a use off the worklist keeps all uses listed, and lists those of a new instance.
proof fn lemma_step_lists<'hir>(start: Names<'hir>, mono: Mono<'hir>, key: Instance<'hir>, fuel: nat)
    requires
        extends(start.ledger(), mono.names.ledger()),
        forall|f: int|
            0 <= f < mono.functions.len() ==> listed(
                start,
                Mono { worklist: mono.worklist.push(key), ..mono },
                (#[trigger] mono.functions[f]).nodes,
            ),
        all_new(start, mono.instances),
        mono.step(key, fuel).1 is Ok,
        mono.step(key, fuel).0.names.signatures.len() <= u32::MAX,
    ensures
        ({
            let after = mono.step(key, fuel).0;
            &&& extends(start.ledger(), after.names.ledger())
            &&& all_new(start, after.instances)
            &&& forall|f: int|
                0 <= f < after.functions.len() ==> listed(
                    start,
                    after,
                    (#[trigger] after.functions[f]).nodes,
                )
        }),
{
    let (after, outcome) = mono.step(key, fuel);
    lemma_step(mono, key, fuel);
    mono.lemma_step_grows(key, fuel);
    lemma_extends_trans(start.ledger(), mono.names.ledger(), after.names.ledger());
    let fresh = outcome->Ok_0;
    if fresh {
        lemma_made(mono, key, fuel);
        lemma_specialised(mono.names, key);
        lemma_signatures_grow(start, mono.names);
        let function = after.functions.last();
        assert forall|i: int| 0 <= i < after.instances.len() implies (
        #[trigger] after.instances[i]).1.0 >= start.signatures.len() by {
            if i < mono.instances.len() {
                assert(after.instances[i] == mono.instances[i]);
            }
        }
        lemma_instance_found(after.instances, key, 0);
        assert(after.instances[mono.instances.len() as int].0 == key);
        lemma_new_listed(start, after.names, after, function.nodes, mono.worklist);
    }
    assert forall|f: int| 0 <= f < after.functions.len() implies listed(
        start,
        after,
        (#[trigger] after.functions[f]).nodes,
    ) by {
        if f < mono.functions.len() {
            assert(after.functions[f] == mono.functions[f]);
            lemma_stays_listed(start, mono, after, key, mono.functions[f].nodes);
        }
    }
}

proof fn lemma_signatures_grow<'hir>(before: Names<'hir>, after: Names<'hir>)
    requires
        extends(before.ledger(), after.ledger()),
    ensures
        before.signatures.len() <= after.signatures.len(),
{
    reveal(extends);
}

/// A use that waited or had an instance still does after another got its instance.
proof fn lemma_carried<'hir>(
    mono: Mono<'hir>,
    after: Mono<'hir>,
    key: Instance<'hir>,
    used: Instance<'hir>,
)
    requires
        mono.worklist.push(key).contains(used) || instance_of(mono.instances, used, 0) is Some,
        mono.worklist.is_prefix_of(after.worklist),
        mono.instances.is_prefix_of(after.instances),
        instance_of(after.instances, key, 0) is Some,
    ensures
        after.worklist.contains(used) || instance_of(after.instances, used, 0) is Some,
{
    if instance_of(mono.instances, used, 0) is Some {
        lemma_still_served(mono.instances, after.instances, used);
    } else {
        let at = mono.worklist.push(key).index_of(used);
        if at < mono.worklist.len() {
            assert(after.worklist.subrange(0, mono.worklist.len() as int)[at]
                == after.worklist[at]);
        }
    }
}

proof fn lemma_run_serves<'hir>(start: Names<'hir>, mono: Mono<'hir>, fuel: nat)
    requires
        extends(start.ledger(), mono.names.ledger()),
        forall|f: int|
            0 <= f < mono.functions.len() ==> listed(
                start,
                mono,
                (#[trigger] mono.functions[f]).nodes,
            ),
        all_new(start, mono.instances),
        mono.run(fuel).1 is Ok,
        mono.run(fuel).0.names.signatures.len() <= u32::MAX,
    ensures
        ({
            let after = mono.run(fuel).0;
            &&& extends(start.ledger(), after.names.ledger())
            &&& all_new(start, after.instances)
            &&& forall|f: int|
                0 <= f < after.functions.len() ==> served(
                    start,
                    after.instances,
                    (#[trigger] after.functions[f]).nodes,
                )
        }),
    decreases fuel, mono.worklist.len(),
{
    if mono.worklist.len() == 0 {
        assert forall|f: int| 0 <= f < mono.functions.len() implies served(
            start,
            mono.instances,
            (#[trigger] mono.functions[f]).nodes,
        ) by {
            assert(listed(start, mono, mono.functions[f].nodes));
        }
    } else {
        let key = mono.worklist.last();
        let rest = Mono { worklist: mono.worklist.drop_last(), ..mono };
        assert(rest.worklist.push(key) =~= mono.worklist);
        assert(Mono { worklist: rest.worklist.push(key), ..rest } == mono);
        lemma_step(rest, key, fuel);
        let (stepped, outcome) = rest.step(key, fuel);
        if let Ok(fresh) = outcome {
            if fresh {
                stepped.lemma_run_grows((fuel - 1) as nat);
                lemma_signatures_grow(stepped.names, mono.run(fuel).0.names);
                lemma_step_lists(start, rest, key, fuel);
                lemma_run_serves(start, stepped, (fuel - 1) as nat);
            } else {
                rest.lemma_run_grows(fuel);
                lemma_signatures_grow(rest.names, mono.run(fuel).0.names);
                lemma_step_lists(start, rest, key, fuel);
                lemma_run_serves(start, rest, fuel);
            }
        }
    }
}

/// A monomorphised program calls no generic function: every call to one goes to an instance.
pub proof fn lemma_no_generic_calls<'hir>(names: Names<'hir>, functions: Seq<FunctionTree<'hir>>)
    requires
        templates_declared(names),
        names.monomorphise(functions).0.signatures.len() <= u32::MAX,
    ensures
        names.monomorphise(functions).1 matches Ok(result) ==> forall|f: int|
            0 <= f < result.len() ==> calls_no_template(names, (#[trigger] result[f]).nodes),
{
    broadcast use lemma_extends_same;

    let start = Mono {
        names,
        functions,
        instances: seq![],
        worklist: collect_all(names, functions, 0, seq![]),
    };
    if let (_, Ok(result)) = names.monomorphise(functions) {
        lemma_all_listed(names, functions, 0, seq![]);
        assert forall|f: int| 0 <= f < functions.len() implies listed(
            names,
            start,
            (#[trigger] functions[f]).nodes,
        ) by {
            let nodes = functions[f].nodes;
            assert forall|i: int| 0 <= i < nodes.len() implies match generic_use(
                names,
                #[trigger] nodes[i],
            ) {
                Some(key) => start.worklist.contains(key) || instance_of(
                    start.instances,
                    key,
                    0,
                ) is Some,
                None => true,
            } by {
                let node = functions[f].nodes[i];
            }
        }
        lemma_run_serves(names, start, MAX_INSTANCES as nat);
        let mono = start.run(MAX_INSTANCES as nat).0;
        assert forall|f: int| 0 <= f < result.len() implies calls_no_template(
            names,
            (#[trigger] result[f]).nodes,
        ) by {
            let nodes = mono.functions[f].nodes;
            assert(served(names, mono.instances, nodes));
            assert forall|i: int| 0 <= i < result[f].nodes.len() implies match (
            #[trigger] result[f].nodes[i]).def {
                Some(Res::Function(callee)) => !names.generic_fns.contains_key(callee.0),
                _ => true,
            } by {
                assert(result[f].nodes[i] == rewrite_node(mono.names, mono.instances, nodes[i]));
                lemma_rewritten(names, mono, nodes[i]);
            }
        }
    }
}

proof fn lemma_rewritten<'hir>(start: Names<'hir>, mono: Mono<'hir>, node: Node<'hir>)
    requires
        templates_declared(start),
        extends(start.ledger(), mono.names.ledger()),
        all_new(start, mono.instances),
        generic_use(start, node) matches Some(key) ==> instance_of(mono.instances, key, 0) is Some,
    ensures
        match rewrite_node(mono.names, mono.instances, node).def {
            Some(Res::Function(callee)) => !start.generic_fns.contains_key(callee.0),
            _ => true,
        },
{
    lemma_still_generic(start, mono.names, node);
    if let Some(key) = generic_use(mono.names, node) {
        lemma_instance_new(start, mono.instances, key, 0);
        if let Some(id) = instance_of(mono.instances, key, 0) {
            assert(!start.generic_fns.contains_key(id.0));
        }
    }
}

proof fn lemma_instance_new<'hir>(
    start: Names<'hir>,
    instances: Seq<(Instance<'hir>, FunctionId)>,
    key: Instance<'hir>,
    at: int,
)
    requires
        0 <= at,
        all_new(start, instances),
    ensures
        instance_of(instances, key, at) matches Some(id) ==> id.0 >= start.signatures.len(),
    decreases instances.len() - at,
{
    if at < instances.len() && instances[at].0 != key {
        lemma_instance_new(start, instances, key, at + 1);
    }
}

} // verus!
