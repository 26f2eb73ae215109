//! Merging the modules of a program only adds to its names.

use crate::hir::declarations::Items;
use crate::hir::growth::{
    extends, lemma_extends_same, lemma_extends_trans, lemma_extends_widens, lemma_widens_trans,
    widens,
};
use crate::hir::scope::{empty_names, Names};
use crate::hir::tree::FunctionTree;
use crate::module::graph::Modules;
use crate::module::loader::Demand;
use vstd::prelude::*;

verus! {

/// Every module adds to what the modules before it declared: their ids stay what they are.
pub proof fn lemma_modules_extend<'hir>(
    modules: Modules<'hir>,
    names: Names<'hir>,
    order: Seq<usize>,
    items: Seq<Items<'hir>>,
    at: nat,
)
    ensures
        widens(names.ledger(), modules.extend(names, order, items, at).0.ledger()),
    decreases order.len() - at,
{
    let after = modules.extend(names, order, items, at).0;
    lemma_extends_same(names.ledger());
    lemma_extends_widens(names.ledger(), names.ledger());
    if at < order.len() && at < items.len() {
        let inside = Names { in_std: modules.nodes[order[at as int] as int].in_std, ..names };
        inside.lemma_extend_grows(items[at as int]);
        match inside.extend(items[at as int]) {
            (next, Ok(_)) => {
                lemma_modules_extend(modules, next, order, items, at + 1);
                lemma_widens_trans(names.ledger(), next.ledger(), after.ledger());
            },
            _ => {},
        }
    }
}

/// Lowering the functions of all modules keeps what was declared.
pub proof fn lemma_modules_lower<'hir>(
    modules: Modules<'hir>,
    names: Names<'hir>,
    order: Seq<usize>,
    items: Seq<Items<'hir>>,
    demand: Demand<'hir>,
    at: nat,
    kept: Seq<FunctionTree<'hir>>,
)
    ensures
        extends(names.ledger(), modules.lower(names, order, items, demand, at, kept).0.ledger()),
    decreases order.len() - at,
{
    broadcast use {lemma_extends_same, lemma_extends_trans, Names::lemma_lower_functions_grows};

    if at < order.len() && at < items.len() {
        let inside = Names { in_std: modules.nodes[order[at as int] as int].in_std, ..names };
        match inside.lower_functions(
            items[at as int].all_functions(),
            0,
            Some(demand.wanted(0, Seq::empty())),
            seq![],
            seq![],
        ) {
            (next, Ok(functions)) => {
                let kept = demand.kept(functions, 0, kept);
                lemma_modules_lower(modules, next, order, items, demand, at + 1, kept);
            },
            _ => {},
        }
    }
}

/// Without recovery a program is either lowered without any error, or not at all: the one error
/// that ended it is the only one.
pub proof fn lemma_load_without_recovery<'hir>(modules: Modules<'hir>)
    ensures
        match modules.load(false) {
            Ok(program) => program.diagnostics.len() == 0,
            Err((errors, _)) => errors.len() == 0,
        },
{
    broadcast use {
        lemma_extends_widens, lemma_widens_trans, Names::lemma_monomorphise_grows,
    };

    reveal(extends);
    reveal(widens);
    if let Ok(order) = modules.merge_order() {
        if let Ok(items) = modules.declare(order, 0, Seq::empty(), Seq::empty()) {
            let start = Names { recover: false, ..empty_names::<'hir>("nyx"@) };
            lemma_modules_extend(modules, start, order, items, 0);
            if let (names, Ok(_)) = modules.extend(start, order, items, 0) {
                let demand = Demand {
                    names,
                    all: modules.declared(names, order, items, 0, Seq::empty()),
                    keep_all: false,
                };
                lemma_modules_lower(modules, names, order, items, demand, 0, Seq::empty());
            }
        }
    }
}

} // verus!
