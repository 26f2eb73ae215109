//! From the modules of a program to its lowered form.

use crate::arena::Arena;
use crate::ast::Interface;
use crate::hir::declarations::{Declarations, Items};
use crate::hir::diagnostics::error_views;
use crate::hir::error::{seen, HirError, HirErrorKind};
use crate::hir::growth::lemma_extends_keeps;
use crate::hir::inference_laws::{concrete_functions, lemma_kept_functions, lemma_no_constants};
use crate::hir::mono::{function_trees, seen_functions};
use crate::hir::program::{Hir, Program};
use crate::hir::scope::{empty_names, Names, Outcome, Scope};
use crate::hir::tree::{Function, FunctionId, FunctionTree};
use crate::module::demand::{
    build_demand, in_project, is_in_project, width, Declared, DemandSet,
};
use crate::module::error::ModuleError;
use crate::module::graph::{build_graph, modules_of, ModuleFile, ModuleGraph, Modules};
use crate::module::resolver::{ModuleResolver, Roots};
use vstd::prelude::*;

verus! {

impl<'hir> Modules<'hir> {
    /// The items of the modules from `at` on, in the order they are merged. The interfaces of
    /// earlier modules are known to later ones.
    pub open spec fn declare(
        self,
        order: Seq<usize>,
        at: nat,
        known: Seq<&'hir Interface<'hir>>,
        items: Seq<Items<'hir>>,
    ) -> Outcome<Seq<Items<'hir>>>
        decreases order.len() - at,
    {
        if at >= order.len() {
            Ok(items)
        } else {
            match Items::partition(self.nodes[order[at as int] as int].statements, known) {
                Err(error) => Err(error),
                Ok(next) => self.declare(
                    order,
                    at + 1,
                    known + next.interfaces,
                    items.push(next),
                ),
            }
        }
    }

    /// The names of a program extended by the modules from `at` on.
    pub open spec fn extend(
        self,
        names: Names<'hir>,
        order: Seq<usize>,
        items: Seq<Items<'hir>>,
        at: nat,
    ) -> (Names<'hir>, Outcome<()>)
        decreases order.len() - at,
    {
        if at >= order.len() || at >= items.len() {
            (names, Ok(()))
        } else {
            let inside = Names { in_std: self.nodes[order[at as int] as int].in_std, ..names };
            match inside.extend(items[at as int]) {
                (names, Err(error)) => (names, Err(error)),
                (names, Ok(_)) => self.extend(names, order, items, at + 1),
            }
        }
    }

    /// Whether a module belongs to the project: the entry does, wherever it stands.
    pub open spec fn is_project(self, node: usize) -> bool {
        !self.nodes[node as int].in_std || self.entry == node
    }

    /// The declared functions of the modules from `at` on.
    pub open spec fn declared(
        self,
        names: Names<'hir>,
        order: Seq<usize>,
        items: Seq<Items<'hir>>,
        at: nat,
        all: Seq<Declared<'hir>>,
    ) -> Seq<Declared<'hir>>
        decreases order.len() - at,
    {
        if at >= order.len() || at >= items.len() {
            all
        } else {
            self.declared(
                names,
                order,
                items,
                at + 1,
                declared_from(
                    names,
                    items[at as int].all_functions(),
                    self.is_project(order[at as int]),
                    0,
                    all,
                ),
            )
        }
    }

    /// Lowers what is wanted of the modules from `at` on, and keeps what is needed.
    pub open spec fn lower(
        self,
        names: Names<'hir>,
        order: Seq<usize>,
        items: Seq<Items<'hir>>,
        demand: Demand<'hir>,
        at: nat,
        kept: Seq<FunctionTree<'hir>>,
    ) -> (Names<'hir>, Outcome<Seq<FunctionTree<'hir>>>)
        decreases order.len() - at,
    {
        if at >= order.len() || at >= items.len() {
            (names, Ok(kept))
        } else {
            let inside = Names { in_std: self.nodes[order[at as int] as int].in_std, ..names };
            let (names, lowered) = inside.lower_functions(
                items[at as int].all_functions(),
                0,
                Some(demand.wanted(0, Seq::empty())),
                seq![],
                seq![],
            );
            match lowered {
                Err(error) => (names, Err(error)),
                Ok(functions) => self.lower(
                    names,
                    order,
                    items,
                    demand,
                    at + 1,
                    demand.kept(functions, 0, kept),
                ),
            }
        }
    }

    /// The program made of the modules, or the errors recorded on the way and the one that
    /// ended it.
    pub open spec fn load(self, recover: bool) -> Result<
        Program<'hir>,
        (Seq<HirError<Seq<char>>>, ModuleError<Seq<char>>),
    > {
        match self.merge_order() {
            Err(error) => Err((Seq::empty(), error)),
            Ok(order) => match self.declare(order, 0, Seq::empty(), Seq::empty()) {
                Err(error) => Err((Seq::empty(), ModuleError::Diagnostic(error))),
                Ok(items) => {
                    let start = Names { recover, ..empty_names::<'hir>("nyx"@) };
                    match self.extend(start, order, items, 0) {
                        (names, Err(error)) => Err((names.errors, ModuleError::Diagnostic(error))),
                        (names, Ok(_)) => {
                            let demand = Demand {
                                names,
                                all: self.declared(names, order, items, 0, Seq::empty()),
                                keep_all: recover,
                            };
                            match self.lower(names, order, items, demand, 0, Seq::empty()) {
                                (names, Err(error)) => Err(
                                    (names.errors, ModuleError::Diagnostic(error)),
                                ),
                                (names, Ok(functions)) => match names.monomorphise(functions) {
                                    (names, Err(error)) => Err(
                                        (names.errors, ModuleError::Diagnostic(error)),
                                    ),
                                    (names, Ok(functions)) => Ok(names.finish(functions)),
                                },
                            }
                        },
                    }
                },
            },
        }
    }
}

/// The declared functions of a module from `at` on.
pub open spec fn declared_from<'hir>(
    names: Names<'hir>,
    functions: Seq<&'hir crate::ast::Function<'hir>>,
    in_project: bool,
    at: nat,
    all: Seq<Declared<'hir>>,
) -> Seq<Declared<'hir>>
    decreases functions.len() - at,
{
    if at >= functions.len() {
        all
    } else {
        let function = functions[at as int];
        declared_from(
            names,
            functions,
            in_project,
            at + 1,
            match names.function_id(
                *function,
                None,
                HirErrorKind::UnknownFunction { name: function.name@ },
            ) {
                Ok(id) => all.push(Declared { id, function, in_project }),
                Err(_) => all,
            },
        )
    }
}

/// What a program needs: the names and declared functions it is told from, and whether all of
/// the project is kept.
pub ghost struct Demand<'hir> {
    pub names: Names<'hir>,
    pub all: Seq<Declared<'hir>>,
    pub keep_all: bool,
}

impl<'hir> Demand<'hir> {
    pub open spec fn has(self, id: FunctionId) -> bool {
        self.names.is_needed(self.all, self.keep_all, id)
    }

    /// The functions to lower from `at` on: what is needed, and to find its errors all of the
    /// project.
    pub open spec fn wanted(self, at: nat, ids: Seq<FunctionId>) -> Seq<FunctionId>
        decreases width(self.names) - at,
    {
        if at >= width(self.names) {
            ids
        } else {
            let id = FunctionId(at as u32);
            self.wanted(
                at + 1,
                if self.has(id) || in_project(self.all, id) {
                    ids.push(id)
                } else {
                    ids
                },
            )
        }
    }

    /// The needed ones of the functions from `at` on.
    pub open spec fn kept(
        self,
        functions: Seq<FunctionTree<'hir>>,
        at: nat,
        kept: Seq<FunctionTree<'hir>>,
    ) -> Seq<FunctionTree<'hir>>
        decreases functions.len() - at,
    {
        if at >= functions.len() {
            kept
        } else {
            self.kept(
                functions,
                at + 1,
                if self.has(functions[at as int].id) {
                    kept.push(functions[at as int])
                } else {
                    kept
                },
            )
        }
    }
}

pub open spec fn item_views<'hir>(declarations: Seq<Declarations<'hir>>) -> Seq<Items<'hir>> {
    declarations.map_values(|items: Declarations<'hir>| items@)
}

pub open spec fn seen_load<'hir>(
    result: Result<Hir<'hir>, (Vec<HirError<&'hir str>>, ModuleError<&'hir str>)>,
) -> Result<Program<'hir>, (Seq<HirError<Seq<char>>>, ModuleError<Seq<char>>)> {
    match result {
        Ok(hir) => Ok(hir@),
        Err((errors, error)) => Err((error_views(errors@), error@)),
    }
}

pub open spec fn seen_declarations<'hir>(
    result: Result<Vec<Declarations<'hir>>, HirError<&'hir str>>,
) -> Outcome<Seq<Items<'hir>>> {
    match result {
        Ok(declarations) => Ok(item_views(declarations@)),
        Err(error) => Err(error@),
    }
}

pub open spec fn order_ok(graph: ModuleGraph, order: Seq<usize>) -> bool {
    forall|i: int| 0 <= i < order.len() ==> (#[trigger] order[i]) < graph.nodes@.len()
}

fn declare_modules<'hir>(
    graph: &ModuleGraph<'hir>,
    order: &Vec<usize>,
    arena: &'hir Arena,
) -> (outcome: Result<Vec<Declarations<'hir>>, HirError<&'hir str>>)
    requires
        order_ok(*graph, order@),
    ensures
        seen_declarations(outcome) == graph@.declare(order@, 0, Seq::empty(), Seq::empty()),
{
    let mut known: Vec<&'hir Interface<'hir>> = Vec::new();
    let mut all: Vec<Declarations<'hir>> = Vec::new();
    assert(item_views(all@) =~= Seq::empty());
    let mut i: usize = 0;
    while i < order.len()
        invariant
            i <= order@.len(),
            order_ok(*graph, order@),
            graph@.declare(order@, 0, Seq::empty(), Seq::empty()) == graph@.declare(
                order@,
                i as nat,
                known@,
                item_views(all@),
            ),
        decreases order@.len() - i,
    {
        let node: usize = order[i];
        assert(graph@.nodes[node as int] == graph.nodes@[node as int]@);
        match Declarations::partition(graph.nodes[node].statements, &known, arena) {
            Err(error) => return Err(error),
            Ok(declarations) => {
                let ghost before = known@;
                let mut j: usize = 0;
                while j < declarations.interfaces.len()
                    invariant
                        j <= declarations.interfaces@.len(),
                        known@ == before + declarations.interfaces@.take(j as int),
                    decreases declarations.interfaces@.len() - j,
                {
                    known.push(declarations.interfaces[j]);
                    j = j + 1;
                    assert(known@ =~= before + declarations.interfaces@.take(j as int));
                }
                assert(known@ =~= before + declarations@.interfaces);
                let ghost shown = declarations@;
                let ghost others = all@;
                all.push(declarations);
                assert(item_views(all@) =~= item_views(others).push(shown));
            },
        }
        i = i + 1;
    }
    Ok(all)
}

fn extend_modules<'hir>(
    scope: Scope<'hir>,
    graph: &ModuleGraph<'hir>,
    order: &Vec<usize>,
    declarations: &Vec<Declarations<'hir>>,
) -> (result: (Scope<'hir>, Result<(), HirError<&'hir str>>))
    requires
        order_ok(*graph, order@),
    ensures
        (result.0@, seen(result.1)) == graph@.extend(
            scope@,
            order@,
            item_views(declarations@),
            0,
        ),
        scope@.constants_concrete() ==> result.0@.constants_concrete(),
{
    let mut current = scope;
    let ghost items = item_views(declarations@);
    let mut i: usize = 0;
    while i < order.len() && i < declarations.len()
        invariant
            order_ok(*graph, order@),
            items == item_views(declarations@),
            graph@.extend(scope@, order@, items, 0) == graph@.extend(
                current@,
                order@,
                items,
                i as nat,
            ),
            scope@.constants_concrete() ==> current@.constants_concrete(),
        decreases order@.len() - i,
    {
        let node: usize = order[i];
        assert(graph@.nodes[node as int] == graph.nodes@[node as int]@);
        assert(items[i as int] == declarations@[i as int]@);
        current.in_std = graph.nodes[node].in_std;
        let (next, outcome) = current.extend(&declarations[i]);
        if let Err(error) = outcome {
            return (next, Err(error));
        }
        current = next;
        i = i + 1;
    }
    (current, Ok(()))
}

fn collect_functions<'hir>(
    scope: &Scope<'hir>,
    graph: &ModuleGraph<'hir>,
    order: &Vec<usize>,
    declarations: &Vec<Declarations<'hir>>,
) -> (all: Vec<Declared<'hir>>)
    requires
        order_ok(*graph, order@),
    ensures
        all@ == graph@.declared(scope@, order@, item_views(declarations@), 0, Seq::empty()),
{
    let mut all: Vec<Declared<'hir>> = Vec::new();
    let ghost items = item_views(declarations@);
    let mut i: usize = 0;
    while i < order.len() && i < declarations.len()
        invariant
            order_ok(*graph, order@),
            items == item_views(declarations@),
            graph@.declared(scope@, order@, items, 0, Seq::empty()) == graph@.declared(
                scope@,
                order@,
                items,
                i as nat,
                all@,
            ),
        decreases order@.len() - i,
    {
        let node: usize = order[i];
        assert(graph@.nodes[node as int] == graph.nodes@[node as int]@);
        assert(items[i as int] == declarations@[i as int]@);
        let in_project = !graph.nodes[node].in_std || graph.entry == node;
        let functions = declarations[i].functions();
        let ghost before = all@;
        let mut j: usize = 0;
        while j < functions.len()
            invariant
                j <= functions@.len(),
                declared_from(scope@, functions@, in_project, 0, before) == declared_from(
                    scope@,
                    functions@,
                    in_project,
                    j as nat,
                    all@,
                ),
            decreases functions@.len() - j,
        {
            let function = functions[j];
            let unknown = HirErrorKind::UnknownFunction { name: function.name };
            match scope.function_id(function, None, unknown) {
                Ok(id) => all.push(Declared { id, function, in_project }),
                Err(_) => {},
            }
            j = j + 1;
        }
        i = i + 1;
    }
    all
}

fn wanted_functions<'hir>(
    demand: &DemandSet,
    all: &Vec<Declared<'hir>>,
    Ghost(expected): Ghost<Demand<'hir>>,
) -> (ids: Vec<FunctionId>)
    requires
        expected.all == all@,
        demand.needed@.len() == width(expected.names),
        forall|id: FunctionId| #[trigger] demand.has(id) == expected.has(id),
    ensures
        ids@ == expected.wanted(0, Seq::empty()),
{
    let mut ids: Vec<FunctionId> = Vec::new();
    let mut i: usize = 0;
    while i < demand.needed.len()
        invariant
            i <= demand.needed@.len(),
            expected.all == all@,
            demand.needed@.len() == width(expected.names),
            forall|id: FunctionId| #[trigger] demand.has(id) == expected.has(id),
            expected.wanted(0, Seq::empty()) == expected.wanted(i as nat, ids@),
        decreases demand.needed@.len() - i,
    {
        let id = FunctionId(i as u32);
        assert(demand.has(id) == expected.has(id));
        if demand.contains(id) || is_in_project(all, id) {
            ids.push(id);
        }
        i = i + 1;
    }
    ids
}

fn lower_modules<'hir>(
    scope: Scope<'hir>,
    graph: &ModuleGraph<'hir>,
    order: &Vec<usize>,
    declarations: &Vec<Declarations<'hir>>,
    demand: &DemandSet,
    wanted: &Vec<FunctionId>,
    Ghost(expected): Ghost<Demand<'hir>>,
) -> (result: (Scope<'hir>, Result<Vec<Function<'hir>>, HirError<&'hir str>>))
    requires
        order_ok(*graph, order@),
        forall|id: FunctionId| #[trigger] demand.has(id) == expected.has(id),
        wanted@ == expected.wanted(0, Seq::empty()),
    ensures
        (result.0@, seen_functions(result.1)) == graph@.lower(
            scope@,
            order@,
            item_views(declarations@),
            expected,
            0,
            Seq::empty(),
        ),
        result.1 matches Ok(functions) ==> concrete_functions(
            result.0@.arrays.types,
            function_trees(functions@),
        ),
        scope@.constants_concrete() ==> result.0@.constants_concrete(),
{
    let mut current = scope;
    let mut kept: Vec<Function<'hir>> = Vec::new();
    assert(function_trees(kept@) =~= Seq::empty());
    let ghost items = item_views(declarations@);
    let mut i: usize = 0;
    while i < order.len() && i < declarations.len()
        invariant
            order_ok(*graph, order@),
            items == item_views(declarations@),
            forall|id: FunctionId| #[trigger] demand.has(id) == expected.has(id),
            wanted@ == expected.wanted(0, Seq::empty()),
            graph@.lower(scope@, order@, items, expected, 0, Seq::empty()) == graph@.lower(
                current@,
                order@,
                items,
                expected,
                i as nat,
                function_trees(kept@),
            ),
            concrete_functions(current@.arrays.types, function_trees(kept@)),
            scope@.constants_concrete() ==> current@.constants_concrete(),
        decreases order@.len() - i,
    {
        let node: usize = order[i];
        assert(graph@.nodes[node as int] == graph.nodes@[node as int]@);
        assert(items[i as int] == declarations@[i as int]@);
        current.in_std = graph.nodes[node].in_std;
        let ghost start = current@;
        let (next, outcome) = current.lower_matching_functions(&declarations[i], Some(wanted));
        proof {
            start.lemma_lower_functions_grows(
                items[i as int].all_functions(),
                0,
                Some(wanted@),
                seq![],
                seq![],
            );
            lemma_extends_keeps(start.ledger(), next@.ledger());
            lemma_kept_functions(start.arrays, next@.arrays, function_trees(kept@));
        }
        match outcome {
            Err(error) => return (next, Err(error)),
            Ok(lowered) => {
                let ghost trees = function_trees(lowered@);
                let ghost before = function_trees(kept@);
                let mut j: usize = 0;
                while j < lowered.len()
                    invariant
                        j <= lowered@.len(),
                        trees == function_trees(lowered@),
                        forall|id: FunctionId| #[trigger] demand.has(id) == expected.has(id),
                        expected.kept(trees, 0, before) == expected.kept(
                            trees,
                            j as nat,
                            function_trees(kept@),
                        ),
                        concrete_functions(next@.arrays.types, trees),
                        concrete_functions(next@.arrays.types, function_trees(kept@)),
                    decreases lowered@.len() - j,
                {
                    assert(trees[j as int] == lowered@[j as int]@);
                    assert(demand.has(lowered@[j as int].id) == expected.has(
                        lowered@[j as int].id,
                    ));
                    if demand.contains(lowered[j].id) {
                        let ghost others = kept@;
                        kept.push(lowered[j]);
                        assert(function_trees(kept@) =~= function_trees(others).push(
                            trees[j as int],
                        ));
                    }
                    j = j + 1;
                }
            },
        }
        current = next;
        i = i + 1;
    }
    (current, Ok(kept))
}

fn failed<'hir>(scope: Scope<'hir>, error: HirError<&'hir str>) -> (failure: (
    Vec<HirError<&'hir str>>,
    ModuleError<&'hir str>,
))
    ensures
        error_views(failure.0@) == scope@.errors,
        failure.1@ == ModuleError::Diagnostic(error@),
{
    let mut scope = scope;
    (scope.diagnostics.take_errors(), ModuleError::Diagnostic(error))
}

/// The lowered program made of its modules. With `recover`, errors are recorded in the program
/// and every function of the project is kept.
pub fn load_modules<'hir>(
    graph: &ModuleGraph<'hir>,
    recover: bool,
    arena: &'hir Arena,
) -> (outcome: Result<Hir<'hir>, (Vec<HirError<&'hir str>>, ModuleError<&'hir str>)>)
    requires
        graph.entry < graph.reached <= graph.nodes@.len(),
    ensures
        seen_load(outcome) == graph@.load(recover),
        outcome matches Ok(hir) ==> hir@.all_concrete(),
{
    let none: Vec<HirError<&'hir str>> = Vec::new();
    assert(error_views(none@) =~= Seq::empty());
    let order = match graph.all_nodes_order() {
        Err(error) => return Err((none, error)),
        Ok(order) => order,
    };
    let declarations = match declare_modules(graph, &order, arena) {
        Err(error) => return Err((none, ModuleError::Diagnostic(error))),
        Ok(declarations) => declarations,
    };
    let mut scope = Scope::new(arena);
    scope.recover = recover;
    proof {
        lemma_no_constants(scope@);
    }
    let (scope, outcome) = extend_modules(scope, graph, &order, &declarations);
    if let Err(error) = outcome {
        return Err(failed(scope, error));
    }
    let all = collect_functions(&scope, graph, &order, &declarations);
    let demand = build_demand(&scope, &all, recover);
    let ghost expected = Demand { names: scope@, all: all@, keep_all: recover };
    assert forall|id: FunctionId| #[trigger] demand.has(id) == expected.has(id) by {
        assert(demand.has(id) == scope@.is_needed(all@, recover, id));
    }
    let wanted = wanted_functions(&demand, &all, Ghost(expected));
    let (scope, outcome) = lower_modules(
        scope,
        graph,
        &order,
        &declarations,
        &demand,
        &wanted,
        Ghost(expected),
    );
    let functions = match outcome {
        Err(error) => return Err(failed(scope, error)),
        Ok(functions) => functions,
    };
    let (scope, outcome) = scope.monomorphise(functions);
    match outcome {
        Err(error) => Err(failed(scope, error)),
        Ok(functions) => Ok(scope.finish(functions)),
    }
}

/// Loads programs below a project's root, with the standard library under its own.
pub struct ModuleLoader<'s> {
    pub resolver: ModuleResolver<'s>,
    pub recover: bool,
    pub arena: &'s Arena,
}

/// The program that starts in a file.
pub open spec fn loaded<'s>(
    roots: Roots,
    files: Seq<ModuleFile<'s>>,
    entry: Seq<char>,
    recover: bool,
) -> Result<Program<'s>, (Seq<HirError<Seq<char>>>, ModuleError<Seq<char>>)> {
    match modules_of(roots, files, entry) {
        Err(error) => Err((Seq::empty(), error)),
        Ok(modules) => modules.load(recover),
    }
}

impl<'s> ModuleLoader<'s> {
    pub fn new(name: &'s str, root: &'s str, std: &'s str, arena: &'s Arena) -> (loader: Self)
        ensures
            loader.resolver@ == (Roots { name: name@, root: root@, std: std@ }),
            !loader.recover,
    {
        ModuleLoader { resolver: ModuleResolver::new(name, root, std), recover: false, arena }
    }

    /// A loader that records errors and works around them.
    pub fn recovering(self) -> (loader: Self)
        ensures
            loader.resolver == self.resolver,
            loader.recover,
    {
        ModuleLoader { recover: true, ..self }
    }

    /// Loads all modules that can be reached from the entry, and makes one program of them.
    ///
    /// Modules are merged in dependency-first order, and the entry is always last.
    pub fn load(&self, entry: &'s str, files: &Vec<ModuleFile<'s>>) -> (outcome: Result<
        Hir<'s>,
        (Vec<HirError<&'s str>>, ModuleError<&'s str>),
    >)
        ensures
            seen_load(outcome) == loaded(self.resolver@, files@, entry@, self.recover),
            outcome matches Ok(hir) ==> hir@.all_concrete(),
    {
        match build_graph(entry, self.resolver, files, self.arena) {
            Err(error) => {
                let none: Vec<HirError<&'s str>> = Vec::new();
                assert(error_views(none@) =~= Seq::empty());
                Err((none, error))
            },
            Ok(graph) => load_modules(&graph, self.recover, self.arena),
        }
    }
}

} // verus!
