//! The functions of a lowered program are those of its source.

use crate::arena::slice_of;
use crate::ast;
use crate::hir::body::Body;
use crate::hir::declarations::Items;
use crate::hir::growth::extends;
use crate::hir::mirror_laws::mirrors_block;
use crate::hir::mono::rewrite_all;
use crate::hir::scope::Names;
use crate::hir::tree::{FunctionId, FunctionTree};
use crate::module::graph::Modules;
use crate::module::loader::Demand;
use vstd::prelude::*;

verus! {

/// Whether a tree is that of a function: it says what the body says, and stands where it stands.
pub open spec fn is_tree_of<'hir>(tree: FunctionTree<'hir>, function: ast::Function<'hir>) -> bool {
    mirrors_block(function.body, tree.body, true) && tree.decl_span == function.span
}

/// Whether a function was passed over or lowered: at its turn it was not to be lowered, or its tree
/// is there.
pub open spec fn is_handled<'hir>(
    function: ast::Function<'hir>,
    demand: Option<Seq<FunctionId>>,
    all: Seq<FunctionTree<'hir>>,
) -> bool {
    exists|names: Names<'hir>, done: Seq<FunctionId>|
        match #[trigger] names.to_lower(function, demand, done) {
            Err(_) => false,
            Ok(None) => true,
            Ok(Some(id)) => exists|k: int|
                0 <= k < all.len() && (#[trigger] all[k]).id == id && is_tree_of(all[k], function),
        }
}

/// A function is passed over just where it is generic or built in, not wanted, or lowered already.
pub proof fn lemma_passed_over<'hir>(
    names: Names<'hir>,
    function: ast::Function<'hir>,
    demand: Option<Seq<FunctionId>>,
    done: Seq<FunctionId>,
)
    ensures
        names.to_lower(function, demand, done) matches Ok(outcome) ==> {
            ||| names.is_generic_function(function) && outcome is None
            ||| exists|id: FunctionId| {
                let built_in = match names.signature(id) {
                    Some(signature) => signature.kind is Intrinsic,
                    None => false,
                };
                let unwanted = match demand {
                    Some(wanted) => !wanted.contains(id),
                    None => false,
                };
                outcome == if built_in || unwanted || #[trigger] done.contains(id) {
                    None
                } else {
                    Some(id)
                }
            }
        },
{
    if !names.is_generic_function(function) {
        if let Ok(id) = names.function_id(
            function,
            None,
            crate::hir::error::HirErrorKind::UnknownFunction { name: function.name@ },
        ) {
            let _ = done.contains(id);
        }
    }
}

proof fn lemma_handled_more<'hir>(
    function: ast::Function<'hir>,
    demand: Option<Seq<FunctionId>>,
    some: Seq<FunctionTree<'hir>>,
    all: Seq<FunctionTree<'hir>>,
)
    requires
        is_handled(function, demand, some),
        some.len() <= all.len(),
        all.take(some.len() as int) == some,
    ensures
        is_handled(function, demand, all),
{
    let (names, done) = choose|names: Names<'hir>, done: Seq<FunctionId>|
        match #[trigger] names.to_lower(function, demand, done) {
            Err(_) => false,
            Ok(None) => true,
            Ok(Some(id)) => exists|k: int|
                0 <= k < some.len() && (#[trigger] some[k]).id == id && is_tree_of(some[k], function),
        };
    if let Ok(Some(id)) = names.to_lower(function, demand, done) {
        let k = choose|k: int|
            0 <= k < some.len() && (#[trigger] some[k]).id == id && is_tree_of(some[k], function);
        assert(all.take(some.len() as int)[k] == all[k]);
        assert(all[k].id == id && is_tree_of(all[k], function));
    }
}

/// Without recovery, lowering some functions gives a tree for each that is to be lowered, adds no
/// other, and leaves those that were there in front.
pub proof fn lemma_functions_lowered<'hir>(
    names: Names<'hir>,
    functions: Seq<&'hir ast::Function<'hir>>,
    at: nat,
    demand: Option<Seq<FunctionId>>,
    done: Seq<FunctionId>,
    lowered: Seq<FunctionTree<'hir>>,
)
    requires
        !names.recover,
        at <= functions.len(),
        names.lower_functions(functions, at, demand, done, lowered).1 is Ok,
    ensures
        ({
            let all = names.lower_functions(functions, at, demand, done, lowered).1->Ok_0;
            &&& lowered.len() <= all.len()
            &&& all.take(lowered.len() as int) == lowered
            &&& forall|i: int|
                at <= i < functions.len() ==> is_handled(*#[trigger] functions[i], demand, all)
            &&& forall|k: int|
                lowered.len() <= k < all.len() ==> exists|i: int|
                    at <= i < functions.len() && is_tree_of(#[trigger] all[k], *#[trigger] functions[i])
        }),
    decreases functions.len() - at,
{
    let all = names.lower_functions(functions, at, demand, done, lowered).1->Ok_0;
    if at >= functions.len() {
        assert(lowered.take(lowered.len() as int) =~= lowered);
    } else {
        let function = functions[at as int];
        match names.to_lower(*function, demand, done) {
            Err(_) => {},
            Ok(None) => {
                lemma_functions_lowered(names, functions, at + 1, demand, done, lowered);
                assert(is_handled(*function, demand, all));
            },
            Ok(Some(id)) => {
                let start = Body::for_function(names, function, slice_of(seq![]));
                start.lemma_lower_function_grows(id, *function);
                start.lemma_function_mirrored(id, *function);
                let (body, outcome) = start.lower_function(id, *function);
                assert(body.names.recover == names.recover) by {
                    reveal(extends);
                }
                if let Ok(tree) = outcome {
                    let more = lowered.push(tree);
                    lemma_functions_lowered(
                        body.names,
                        functions,
                        at + 1,
                        demand,
                        done.push(id),
                        more,
                    );
                    assert(all.take(lowered.len() as int) =~= lowered) by {
                        assert(all.take(more.len() as int).take(lowered.len() as int)
                            =~= all.take(lowered.len() as int));
                        assert(more.take(lowered.len() as int) =~= lowered);
                    }
                    let k = lowered.len() as int;
                    assert(all[k] == all.take(more.len() as int)[k]);
                    assert(all[k] == tree);
                    assert(all[k].id == id && is_tree_of(all[k], *function));
                    assert(is_handled(*function, demand, all));
                    assert forall|k: int| lowered.len() <= k < all.len() implies exists|i: int|
                        at <= i < functions.len() && is_tree_of(
                            #[trigger] all[k],
                            *#[trigger] functions[i],
                        ) by {
                        if k == lowered.len() {
                            assert(is_tree_of(all[k], *functions[at as int]));
                        }
                    }
                }
            },
        }
    }
}

/// Pointing calls at instances leaves every function what it is.
pub proof fn lemma_rewritten<'hir>(
    names: Names<'hir>,
    instances: Seq<(crate::hir::mono::Instance<'hir>, FunctionId)>,
    functions: Seq<FunctionTree<'hir>>,
    k: int,
)
    requires
        0 <= k < functions.len(),
    ensures
        ({
            let all = rewrite_all(names, instances, functions);
            &&& all.len() == functions.len()
            &&& all[k].id == functions[k].id
            &&& all[k].name == functions[k].name
            &&& all[k].body == functions[k].body
            &&& all[k].decl_span == functions[k].decl_span
            &&& all[k].params == functions[k].params
            &&& all[k].locals == functions[k].locals
            &&& all[k].return_type == functions[k].return_type
            &&& all[k].nodes.len() == functions[k].nodes.len()
        }),
{
}

/// Without recovery, a program of modules keeps the tree of every function of theirs that is to be
/// lowered and that it needs, whatever module it stands in.
pub proof fn lemma_modules_kept<'hir>(
    modules: Modules<'hir>,
    names: Names<'hir>,
    order: Seq<usize>,
    items: Seq<Items<'hir>>,
    demand: Demand<'hir>,
    at: nat,
    kept: Seq<FunctionTree<'hir>>,
)
    requires
        !names.recover,
        modules.lower(names, order, items, demand, at, kept).1 is Ok,
    ensures
        ({
            let all = modules.lower(names, order, items, demand, at, kept).1->Ok_0;
            &&& forall|tree: FunctionTree<'hir>| #[trigger]
                kept.contains(tree) ==> all.contains(tree)
            &&& forall|i: int, j: int|
                at <= i < order.len() && i < items.len() && 0 <= j < (
                #[trigger] items[i].all_functions()).len() ==> is_kept(
                    *#[trigger] items[i].all_functions()[j],
                    demand,
                    all,
                )
        }),
    decreases order.len() - at,
{
    let all = modules.lower(names, order, items, demand, at, kept).1->Ok_0;
    if at < order.len() && at < items.len() {
        let inside = Names { in_std: modules.nodes[order[at as int] as int].in_std, ..names };
        let functions = items[at as int].all_functions();
        let wanted = Some(demand.wanted(0, Seq::empty()));
        let (next, outcome) = inside.lower_functions(functions, 0, wanted, seq![], seq![]);
        inside.lemma_lower_functions_grows(functions, 0, wanted, seq![], seq![]);
        assert(next.recover == names.recover) by {
            reveal(extends);
        }
        if let Ok(lowered) = outcome {
            lemma_functions_lowered(inside, functions, 0, wanted, seq![], seq![]);
            let more = demand.kept(lowered, 0, kept);
            lemma_modules_kept(modules, next, order, items, demand, at + 1, more);
            assert forall|tree: FunctionTree<'hir>| #[trigger]
                kept.contains(tree) implies all.contains(tree) by {
                crate::module::demand_laws::lemma_kept(demand, lowered, 0, kept, tree);
                assert(more.contains(tree));
            }
            assert forall|i: int, j: int|
                at <= i < order.len() && i < items.len() && 0 <= j < (
                #[trigger] items[i].all_functions()).len() implies is_kept(
                *#[trigger] items[i].all_functions()[j],
                demand,
                all,
            ) by {
                if i == at {
                    let function = *functions[j];
                    assert(is_handled(function, wanted, lowered));
                    let (state, done) = choose|names: Names<'hir>, done: Seq<FunctionId>|
                        match #[trigger] names.to_lower(function, wanted, done) {
                            Err(_) => false,
                            Ok(None) => true,
                            Ok(Some(id)) => exists|k: int|
                                0 <= k < lowered.len() && (#[trigger] lowered[k]).id == id
                                    && is_tree_of(lowered[k], function),
                        };
                    if let Ok(Some(id)) = state.to_lower(function, wanted, done) {
                        let k = choose|k: int|
                            0 <= k < lowered.len() && (#[trigger] lowered[k]).id == id
                                && is_tree_of(lowered[k], function);
                        let tree = lowered[k];
                        if demand.has(id) {
                            crate::module::demand_laws::lemma_kept(demand, lowered, 0, kept, tree);
                            assert(lowered.skip(0) =~= lowered);
                            assert(lowered.contains(tree));
                            assert(more.contains(tree));
                            assert(all.contains(tree));
                        }
                    }
                    assert(is_kept(function, demand, all));
                }
            }
        }
    }
}

/// Whether a function was passed over, is not needed, or its tree is there.
pub open spec fn is_kept<'hir>(
    function: ast::Function<'hir>,
    demand: Demand<'hir>,
    all: Seq<FunctionTree<'hir>>,
) -> bool {
    exists|names: Names<'hir>, done: Seq<FunctionId>|
        match #[trigger] names.to_lower(
            function,
            Some(demand.wanted(0, Seq::empty())),
            done,
        ) {
            Err(_) => false,
            Ok(None) => true,
            Ok(Some(id)) => demand.has(id) ==> exists|tree: FunctionTree<'hir>| #[trigger]
                all.contains(tree) && tree.id == id && is_tree_of(tree, function),
        }
}

} // verus!
