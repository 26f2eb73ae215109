//! Lowering a program only adds to its names.

use crate::arena::slice_of;
use crate::ast;
use crate::ast::{Span, Statement};
use crate::hir::body::Body;
use crate::hir::constants::ConstDecl;
use crate::hir::declarations::Items;
use crate::hir::docs::docs_of;
use crate::hir::growth::{
    carries, extends, lemma_carries_same, lemma_carries_trans, lemma_extends_same,
    lemma_extends_trans, lemma_extends_widens, lemma_widens_trans, widens, Ledger,
};
use crate::hir::mono::{collect_all, Instance, Mono, MAX_INSTANCES};
use crate::hir::program::lowered;
use crate::hir::scope::Names;
use crate::hir::tree::{ConstTree, FunctionId, FunctionTree};
use crate::hir::type_resolver::{ResolveCtx, MAX_DEPTH};
use vstd::prelude::*;

verus! {

impl<'hir> Names<'hir> {
    pub(crate) broadcast proof fn lemma_collect_docs_grows(
        self,
        docs: Seq<(Span, &'hir Vec<&'hir str>)>,
        at: nat,
    )
        ensures
            extends(self.ledger(), (#[trigger] self.collect_docs(docs, at)).ledger()),
            carries(self.catalog(), self.collect_docs(docs, at).catalog()),
        decreases docs.len() - at,
    {
        broadcast use {
            lemma_extends_same, lemma_extends_trans, lemma_carries_same, lemma_carries_trans,
        };

        if at < docs.len() {
            let (span, lines) = docs[at as int];
            let names = match docs_of(lines@) {
                Some(text) => Names { docs: self.docs.push((span, text)), ..self },
                None => self,
            };
            names.lemma_collect_docs_grows(docs, at + 1);
        }
    }

    pub(crate) broadcast proof fn lemma_add_const_grows(
        self,
        mangled: Seq<char>,
        owner: Option<&'hir str>,
        ast: &'hir ast::Const<'hir>,
        decls: Seq<ConstDecl<'hir>>,
    )
        ensures
            extends(
                self.ledger(),
                (#[trigger] self.add_const(mangled, owner, ast, decls)).0.ledger(),
            ),
            carries(self.catalog(), self.add_const(mangled, owner, ast, decls).0.catalog()),
    {
        broadcast use {
            lemma_extends_same, lemma_extends_trans, lemma_carries_same, lemma_carries_trans,
            Names::lemma_insert_grows, Names::lemma_soft_grows,
        };
    }

    pub(crate) broadcast proof fn lemma_module_consts_grows(
        self,
        constants: Seq<&'hir ast::Const<'hir>>,
        at: nat,
        decls: Seq<ConstDecl<'hir>>,
    )
        ensures
            extends(
                self.ledger(),
                (#[trigger] self.module_consts(constants, at, decls)).0.ledger(),
            ),
            carries(self.catalog(), self.module_consts(constants, at, decls).0.catalog()),
        decreases constants.len() - at,
    {
        broadcast use {
            lemma_extends_same, lemma_extends_trans, lemma_carries_same, lemma_carries_trans,
            Names::lemma_add_const_grows,
        };

        if at < constants.len() {
            let ast = constants[at as int];
            match self.add_const(self.item(ast.name@), None, ast, decls) {
                (names, Ok(decls)) => {
                    names.lemma_module_consts_grows(constants, at + 1, decls);
                },
                _ => {},
            }
        }
    }

    pub(crate) broadcast proof fn lemma_impl_consts_grows(
        self,
        implementation: ast::Impl<'hir>,
        at: nat,
        decls: Seq<ConstDecl<'hir>>,
    )
        ensures
            extends(
                self.ledger(),
                (#[trigger] self.impl_consts(implementation, at, decls)).0.ledger(),
            ),
            carries(self.catalog(), self.impl_consts(implementation, at, decls).0.catalog()),
        decreases implementation.constants@.len() - at,
    {
        broadcast use {
            lemma_extends_same, lemma_extends_trans, lemma_carries_same, lemma_carries_trans,
            Names::lemma_add_const_grows,
        };

        if at < implementation.constants@.len() {
            let ast = &implementation.constants@[at as int];
            match self.add_const(
                self.scoped_item(implementation.name@, ast.name@),
                Some(implementation.name),
                ast,
                decls,
            ) {
                (names, Ok(decls)) => {
                    names.lemma_impl_consts_grows(implementation, at + 1, decls);
                },
                _ => {},
            }
        }
    }

    pub(crate) broadcast proof fn lemma_impls_consts_grows(
        self,
        impls: Seq<&'hir ast::Impl<'hir>>,
        at: nat,
        decls: Seq<ConstDecl<'hir>>,
    )
        ensures
            extends(self.ledger(), (#[trigger] self.impls_consts(impls, at, decls)).0.ledger()),
            carries(self.catalog(), self.impls_consts(impls, at, decls).0.catalog()),
        decreases impls.len() - at,
    {
        broadcast use {
            lemma_extends_same, lemma_extends_trans, lemma_carries_same, lemma_carries_trans,
            Names::lemma_impl_consts_grows,
        };

        if at < impls.len() {
            match self.impl_consts(*impls[at as int], 0, decls) {
                (names, Ok(decls)) => {
                    names.lemma_impls_consts_grows(impls, at + 1, decls);
                },
                _ => {},
            }
        }
    }

    /// Other constants leave all else as it is.
    proof fn lemma_constants_widen(self, constants: Seq<ConstTree<'hir>>)
        ensures
            widens(self.ledger(), Names { constants, ..self }.ledger()),
    {
        reveal(widens);
        lemma_extends_same(Names { constants, ..self }.ledger());
        assert(Names { constants, ..self }.ledger() == (Ledger { constants, ..self.ledger() }));
    }

    pub(crate) broadcast proof fn lemma_extend_const_grows(self, decl: ConstDecl<'hir>)
        ensures
            widens(self.ledger(), (#[trigger] self.extend_const(decl)).0.ledger()),
            carries(self.catalog(), self.extend_const(decl).0.catalog()),
    {
        broadcast use {
            lemma_extends_same, lemma_extends_trans, lemma_extends_widens, lemma_widens_trans,
            lemma_carries_same, lemma_carries_trans,
            Body::lemma_lower_initialiser_grows, Names::lemma_resolve_or_poison_grows,
            Names::lemma_soft_grows,
        };

        match self.resolve_or_poison(decl.ast.typ, ResolveCtx::root_spec(), MAX_DEPTH as nat) {
            (names, Ok(typ)) => {
                let body = Body::for_const(names).lower_initialiser(decl.ast.value, typ).0;
                body.names.lemma_constants_widen(self.extend_const(decl).0.constants);
            },
            _ => {},
        }
    }

    pub(crate) broadcast proof fn lemma_extend_sorted_grows(
        self,
        decls: Seq<ConstDecl<'hir>>,
        order: Seq<usize>,
        at: nat,
    )
        ensures
            widens(self.ledger(), (#[trigger] self.extend_sorted(decls, order, at)).0.ledger()),
            carries(self.catalog(), self.extend_sorted(decls, order, at).0.catalog()),
        decreases order.len() - at,
    {
        broadcast use {lemma_carries_same, lemma_carries_trans};

        if at >= order.len() {
            lemma_extends_same(self.ledger());
            lemma_extends_widens(self.ledger(), self.ledger());
        } else if order[at as int] >= decls.len() {
            self.lemma_extend_sorted_grows(decls, order, at + 1);
        } else {
            let decl = decls[order[at as int] as int];
            self.lemma_extend_const_grows(decl);
            match self.extend_const(decl) {
                (names, Ok(_)) => {
                    names.lemma_extend_sorted_grows(decls, order, at + 1);
                    lemma_widens_trans(
                        self.ledger(),
                        names.ledger(),
                        self.extend_sorted(decls, order, at).0.ledger(),
                    );
                },
                _ => {},
            }
        }
    }

    pub(crate) broadcast proof fn lemma_extend_constants_grows(self, items: Items<'hir>)
        ensures
            widens(self.ledger(), (#[trigger] self.extend_constants(items)).0.ledger()),
            carries(self.catalog(), self.extend_constants(items).0.catalog()),
    {
        broadcast use {
            lemma_extends_same, lemma_extends_trans, lemma_extends_widens, lemma_widens_trans,
            lemma_carries_same, lemma_carries_trans,
            Names::lemma_extend_sorted_grows, Names::lemma_impls_consts_grows,
            Names::lemma_module_consts_grows, Names::lemma_soft_grows,
        };
    }

    pub(crate) broadcast proof fn lemma_specialise_grows(self, key: Instance<'hir>)
        ensures
            extends(self.ledger(), (#[trigger] self.specialise(key)).0.ledger()),
    {
        broadcast use {
            lemma_extends_same, lemma_extends_trans, Body::lemma_lower_function_grows,
            Names::lemma_insert_grows, Names::lemma_push_signature_grows,
            Names::lemma_resolve_params_grows, Names::lemma_resolve_return_type_grows,
        };

        reveal(Names::specialise);
    }

    /// Extending the namespace by a module only adds to it.
    pub broadcast proof fn lemma_extend_grows(self, items: Items<'hir>)
        ensures
            widens(self.ledger(), (#[trigger] self.extend(items)).0.ledger()),
            carries(self.catalog(), self.extend(items).0.catalog()),
    {
        broadcast use {
            lemma_extends_same, lemma_extends_trans, lemma_extends_widens, lemma_widens_trans,
            lemma_carries_same, lemma_carries_trans,
            Names::lemma_collect_docs_grows, Names::lemma_extend_constants_grows,
            Names::lemma_extend_interfaces_grows, Names::lemma_extend_signatures_grows,
            Names::lemma_extend_types_grows, Names::lemma_validate_grows,
        };
    }

    /// Lowering functions only adds to the namespace.
    pub broadcast proof fn lemma_lower_functions_grows(
        self,
        functions: Seq<&'hir ast::Function<'hir>>,
        at: nat,
        demand: Option<Seq<FunctionId>>,
        done: Seq<FunctionId>,
        lowered: Seq<FunctionTree<'hir>>,
    )
        ensures
            extends(
                self.ledger(),
                (#[trigger] self.lower_functions(functions, at, demand, done, lowered)).0.ledger(),
            ),
            carries(
                self.catalog(),
                self.lower_functions(functions, at, demand, done, lowered).0.catalog(),
            ),
        decreases functions.len() - at,
    {
        broadcast use {
            lemma_extends_same, lemma_extends_trans, lemma_carries_same, lemma_carries_trans,
            Body::lemma_lower_function_grows, Names::lemma_soft_grows,
        };

        if at < functions.len() {
            let function = functions[at as int];
            match self.to_lower(*function, demand, done) {
                Err(error) => {
                    match self.soft(error) {
                        (names, Ok(_)) => {
                            names.lemma_lower_functions_grows(
                                functions,
                                at + 1,
                                demand,
                                done,
                                lowered,
                            );
                        },
                        _ => {},
                    }
                },
                Ok(None) => {
                    self.lemma_lower_functions_grows(functions, at + 1, demand, done, lowered);
                },
                Ok(Some(id)) => {
                    let (body, outcome) = Body::for_function(self, function, slice_of(seq![])).lower_function(
                        id,
                        *function,
                    );
                    match outcome {
                        Ok(tree) => {
                            body.names.lemma_lower_functions_grows(
                                functions,
                                at + 1,
                                demand,
                                done.push(id),
                                lowered.push(tree),
                            );
                        },
                        Err(error) => {
                            match body.names.soft(error) {
                                (names, Ok(_)) => {
                                    names.lemma_lower_functions_grows(
                                        functions,
                                        at + 1,
                                        demand,
                                        done.push(id),
                                        lowered,
                                    );
                                },
                                _ => {},
                            }
                        },
                    }
                },
            }
        }
    }
}

impl<'hir> Mono<'hir> {
    pub(crate) proof fn lemma_step_grows(self, key: Instance<'hir>, fuel: nat)
        ensures
            extends(self.names.ledger(), self.step(key, fuel).0.names.ledger()),
    {
        broadcast use {lemma_extends_same, Names::lemma_specialise_grows};

        reveal(Mono::step);
    }

    pub(crate) proof fn lemma_run_grows(self, fuel: nat)
        ensures
            extends(self.names.ledger(), self.run(fuel).0.names.ledger()),
        decreases fuel, self.worklist.len(),
    {
        broadcast use {lemma_extends_same, lemma_extends_trans};

        if self.worklist.len() > 0 {
            let key = self.worklist.last();
            let rest = Mono { worklist: self.worklist.drop_last(), ..self };
            rest.lemma_step_grows(key, fuel);
            match rest.step(key, fuel) {
                (mono, Ok(true)) => if fuel > 0 {
                    mono.lemma_run_grows((fuel - 1) as nat);
                },
                (_, Ok(false)) => {
                    rest.lemma_run_grows(fuel);
                },
                _ => {},
            }
        }
    }
}

impl<'hir> Names<'hir> {
    /// Making instances of generic functions only adds to the namespace.
    pub broadcast proof fn lemma_monomorphise_grows(self, functions: Seq<FunctionTree<'hir>>)
        ensures
            extends(self.ledger(), (#[trigger] self.monomorphise(functions)).0.ledger()),
    {
        let start = Mono {
            names: self,
            functions,
            instances: seq![],
            worklist: collect_all(self, functions, 0, seq![]),
        };
        start.lemma_run_grows(MAX_INSTANCES as nat);
    }
}

/// A program lowered without recovery has no errors beside it.
pub proof fn lemma_lowered_without_errors<'hir>(statements: Seq<Statement<'hir>>)
    ensures
        lowered(statements) matches Ok(program) ==> program.diagnostics.len() == 0,
{
    broadcast use {
        lemma_extends_same, lemma_extends_trans, lemma_extends_widens, lemma_widens_trans,
        Names::lemma_extend_grows,
        Names::lemma_lower_functions_grows, Names::lemma_monomorphise_grows,
    };

    reveal(extends);
    reveal(widens);
}

} // verus!
