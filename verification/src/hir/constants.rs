//! Constant declarations.
//!
//! The initialiser of a constant may refer to other constants, so they are lowered in the order
//! of their dependencies.

use crate::ast;
use crate::ast::Expression;
use crate::hir::body::Body;
use crate::hir::declarations::{Declarations, Items};
use crate::hir::error::{seen, HirError, HirErrorKind};
use crate::hir::function::lower_const;
use crate::hir::growth::{extends, lemma_extends_trans};
use crate::hir::inference_laws::{lemma_constant_added, lemma_kept_constants};
use crate::hir::scope::{const_trees, last_constant, Names, Outcome, Scope};
use crate::hir::symbols::{join, qualified, SymbolId};
use crate::hir::topo::{graph_of, sorted_graph, topological_sort, Graph};
use crate::hir::tree::{const_tree, ConstTree, Constant};
use crate::hir::type_resolver::{ResolveCtx, MAX_DEPTH};
use vstd::prelude::*;

verus! {

/// A declared constant, with the type whose `impl` block it stands in.
#[derive(Debug, Clone, Copy)]
pub struct ConstDecl<'hir> {
    pub symbol: SymbolId,
    pub owner: Option<&'hir str>,
    pub ast: &'hir ast::Const<'hir>,
}

/// The position of the constant with the given name.
pub open spec fn decl_position<'hir>(decls: Seq<ConstDecl<'hir>>, symbol: SymbolId, at: int) -> Option<
    usize,
>
    decreases decls.len() - at,
{
    if at < 0 || at >= decls.len() {
        None
    } else if decls[at].symbol == symbol {
        Some(at as usize)
    } else {
        decl_position(decls, symbol, at + 1)
    }
}

/// The position of the lowered constant with the given name, at `at` or after it.
pub open spec fn constant_position<'hir>(
    constants: Seq<ConstTree<'hir>>,
    name: SymbolId,
    at: int,
) -> Option<int>
    decreases constants.len() - at,
{
    if at < 0 || at >= constants.len() {
        None
    } else if constants[at].name == name {
        Some(at)
    } else {
        constant_position(constants, name, at + 1)
    }
}

/// The constants with one more, which takes the place of one of its name.
pub open spec fn with_constant<'hir>(
    constants: Seq<ConstTree<'hir>>,
    constant: ConstTree<'hir>,
) -> Seq<ConstTree<'hir>> {
    match constant_position(constants, constant.name, 0) {
        Some(index) => constants.update(index, constant),
        None => constants.push(constant),
    }
}

/// Whether no two constants share a name.
pub open spec fn constants_differ<'hir>(constants: Seq<ConstTree<'hir>>) -> bool {
    forall|i: int, j: int|
        0 <= i < j < constants.len() ==> #[trigger] constants[i].name != #[trigger] constants[j].name
}

pub(crate) proof fn lemma_constant_position<'hir>(
    constants: Seq<ConstTree<'hir>>,
    name: SymbolId,
    at: int,
)
    requires
        0 <= at,
    ensures
        match constant_position(constants, name, at) {
            Some(index) => at <= index < constants.len() && constants[index].name == name,
            None => forall|i: int| at <= i < constants.len() ==> constants[i].name != name,
        },
    decreases constants.len() - at,
{
    if at < constants.len() && constants[at].name != name {
        lemma_constant_position(constants, name, at + 1);
    }
}

/// Constants keep names of their own when one is added, every other constant stays where it is,
/// and the name then stands for the one that came last.
pub proof fn lemma_constants_differ<'hir>(
    constants: Seq<ConstTree<'hir>>,
    constant: ConstTree<'hir>,
)
    requires
        constants_differ(constants),
    ensures
        constants_differ(with_constant(constants, constant)),
        with_constant(constants, constant).contains(constant),
        forall|i: int|
            0 <= i < constants.len() && constants[i].name != constant.name ==> (#[trigger] with_constant(
                constants,
                constant,
            )[i]) == constants[i],
        last_constant(with_constant(constants, constant), constant.name) == Some(constant),
{
    lemma_constant_position(constants, constant.name, 0);
    let after = with_constant(constants, constant);
    let index = match constant_position(constants, constant.name, 0) {
        Some(index) => index,
        None => constants.len() as int,
    };
    assert(after[index] == constant);
    lemma_last_constant(after, index);
}

/// The last constant of its name, where names differ, is the one that has it.
proof fn lemma_last_constant<'hir>(constants: Seq<ConstTree<'hir>>, index: int)
    requires
        0 <= index < constants.len(),
        constants_differ(constants),
    ensures
        last_constant(constants, constants[index].name) == Some(constants[index]),
    decreases constants.len(),
{
    if index < constants.len() - 1 {
        assert(constants.last().name != constants[index].name);
        assert(constants.drop_last()[index] == constants[index]);
        lemma_last_constant(constants.drop_last(), index);
    }
}

fn put_constant<'hir>(constants: &mut Vec<&'hir Constant<'hir>>, constant: &'hir Constant<'hir>)
    ensures
        const_trees(final(constants)@) == with_constant(
            const_trees(old(constants)@),
            const_tree(*constant),
        ),
{
    let ghost all = const_trees(constants@);
    let ghost tree = const_tree(*constant);
    let mut i: usize = 0;
    while i < constants.len()
        invariant
            i <= constants@.len(),
            constants@ == old(constants)@,
            all == const_trees(constants@),
            tree == const_tree(*constant),
            constant_position(all, tree.name, 0) == constant_position(all, tree.name, i as int),
        decreases constants@.len() - i,
    {
        assert(all[i as int].name == constants@[i as int].name);
        if constants[i].name == constant.name {
            constants.set(i, constant);
            assert(const_trees(constants@) =~= all.update(i as int, tree));
            return ;
        }
        i += 1;
    }
    constants.push(constant);
    assert(const_trees(constants@) =~= all.push(tree));
}

fn find_decl<'hir>(decls: &Vec<ConstDecl<'hir>>, symbol: SymbolId) -> (position: Option<usize>)
    ensures
        position == decl_position(decls@, symbol, 0),
        position matches Some(index) ==> index < decls@.len(),
{
    let mut i: usize = 0;
    while i < decls.len()
        invariant
            i <= decls@.len(),
            decl_position(decls@, symbol, 0) == decl_position(decls@, symbol, i as int),
        decreases decls@.len() - i,
    {
        if decls[i].symbol == symbol {
            return Some(i);
        }
        i += 1;
    }
    None
}

/// The name errors use for a constant.
pub open spec fn decl_name(decl: ConstDecl) -> Seq<char> {
    match decl.owner {
        Some(owner) => join(owner@, decl.ast.name@),
        None => decl.ast.name@,
    }
}

impl<'hir> Names<'hir> {
    /// Adds a declared constant unless its name is taken.
    pub open spec fn add_const(
        self,
        mangled: Seq<char>,
        owner: Option<&'hir str>,
        ast: &'hir ast::Const<'hir>,
        decls: Seq<ConstDecl<'hir>>,
    ) -> (Names<'hir>, Outcome<Seq<ConstDecl<'hir>>>) {
        let (names, symbol) = self.insert(mangled);
        let decl = ConstDecl { symbol, owner, ast };
        if decl_position(decls, symbol, 0) is Some {
            match names.soft(
                HirError::new(HirErrorKind::DuplicateConstant { name: decl_name(decl) }, ast.span),
            ) {
                (names, Err(error)) => (names, Err(error)),
                (names, Ok(_)) => (names, Ok(decls)),
            }
        } else {
            (names, Ok(decls.push(decl)))
        }
    }

    /// The constants of a module from position `at` on.
    pub open spec fn module_consts(
        self,
        constants: Seq<&'hir ast::Const<'hir>>,
        at: nat,
        decls: Seq<ConstDecl<'hir>>,
    ) -> (Names<'hir>, Outcome<Seq<ConstDecl<'hir>>>)
        decreases constants.len() - at,
    {
        if at >= constants.len() {
            (self, Ok(decls))
        } else {
            let ast = constants[at as int];
            match self.add_const(self.item(ast.name@), None, ast, decls) {
                (names, Err(error)) => (names, Err(error)),
                (names, Ok(decls)) => names.module_consts(constants, at + 1, decls),
            }
        }
    }

    /// The constants of one `impl` block from position `at` on.
    pub open spec fn impl_consts(
        self,
        implementation: ast::Impl<'hir>,
        at: nat,
        decls: Seq<ConstDecl<'hir>>,
    ) -> (Names<'hir>, Outcome<Seq<ConstDecl<'hir>>>)
        decreases implementation.constants@.len() - at,
    {
        if at >= implementation.constants@.len() {
            (self, Ok(decls))
        } else {
            let ast = &implementation.constants@[at as int];
            match self.add_const(
                self.scoped_item(implementation.name@, ast.name@),
                Some(implementation.name),
                ast,
                decls,
            ) {
                (names, Err(error)) => (names, Err(error)),
                (names, Ok(decls)) => names.impl_consts(implementation, at + 1, decls),
            }
        }
    }

    /// The constants of all `impl` blocks from position `at` on.
    pub open spec fn impls_consts(
        self,
        impls: Seq<&'hir ast::Impl<'hir>>,
        at: nat,
        decls: Seq<ConstDecl<'hir>>,
    ) -> (Names<'hir>, Outcome<Seq<ConstDecl<'hir>>>)
        decreases impls.len() - at,
    {
        if at >= impls.len() {
            (self, Ok(decls))
        } else {
            match self.impl_consts(*impls[at as int], 0, decls) {
                (names, Err(error)) => (names, Err(error)),
                (names, Ok(decls)) => names.impls_consts(impls, at + 1, decls),
            }
        }
    }

    /// The position of the constant with the given canonical name.
    pub open spec fn const_at(self, decls: Seq<ConstDecl<'hir>>, mangled: Seq<char>) -> Option<usize> {
        match self.get_id(mangled) {
            Some(symbol) => decl_position(decls, symbol, 0),
            None => None,
        }
    }

    /// The constant a plain name refers to: one of the same type first, then one of the module.
    pub open spec fn named_const(
        self,
        decls: Seq<ConstDecl<'hir>>,
        owner: Option<&'hir str>,
        name: Seq<char>,
    ) -> Option<usize> {
        let scoped = match owner {
            Some(owner) => self.const_at(decls, self.scoped_item(owner@, name)),
            None => None,
        };
        match scoped {
            Some(position) => Some(position),
            None => self.const_at(decls, self.item(name)),
        }
    }

    /// The constants an expression refers to, after those found before it.
    pub open spec fn const_deps(
        self,
        decls: Seq<ConstDecl<'hir>>,
        owner: Option<&'hir str>,
        expr: Expression<'hir>,
        found: Seq<usize>,
    ) -> Seq<usize>
        decreases expr, 0nat,
    {
        match expr {
            Expression::Identifier(name, _) => match self.named_const(decls, owner, name@) {
                Some(position) => found.push(position),
                None => found,
            },
            Expression::QualifiedName(expr) => match self.const_at(
                decls,
                self.scoped_item(expr.qualifier@, expr.name@),
            ) {
                Some(position) => found.push(position),
                None => found,
            },
            Expression::Unary(expr) => self.const_deps(decls, owner, *expr.expr, found),
            Expression::Binary(expr) => {
                let found = self.const_deps(decls, owner, *expr.left, found);
                self.const_deps(decls, owner, *expr.right, found)
            },
            Expression::Assignment(expr) => {
                let found = self.const_deps(decls, owner, *expr.target, found);
                self.const_deps(decls, owner, *expr.value, found)
            },
            Expression::Cast(expr) => self.const_deps(decls, owner, *expr.expr, found),
            Expression::Struct(expr) => self.const_deps_fields(decls, owner, expr.fields@, 0, found),
            Expression::Field(expr) => self.const_deps(decls, owner, *expr.expr, found),
            Expression::Array(expr) => self.const_deps_list(
                decls,
                owner,
                expr.elements@,
                0,
                found,
            ),
            Expression::ArrayRepeat(expr) => self.const_deps(decls, owner, *expr.value, found),
            Expression::Index(expr) => {
                let found = self.const_deps(decls, owner, *expr.base, found);
                self.const_deps(decls, owner, *expr.index, found)
            },
            Expression::Call(expr) => {
                let found = self.const_deps(decls, owner, *expr.callee, found);
                self.const_deps_list(decls, owner, expr.args@, 0, found)
            },
            Expression::QualifiedCall(expr) => self.const_deps_list(
                decls,
                owner,
                expr.args@,
                0,
                found,
            ),
            _ => found,
        }
    }

    pub open spec fn const_deps_list(
        self,
        decls: Seq<ConstDecl<'hir>>,
        owner: Option<&'hir str>,
        exprs: Seq<Expression<'hir>>,
        at: nat,
        found: Seq<usize>,
    ) -> Seq<usize>
        decreases exprs, exprs.len() - at,
    {
        if at >= exprs.len() {
            found
        } else {
            self.const_deps_list(
                decls,
                owner,
                exprs,
                at + 1,
                self.const_deps(decls, owner, exprs[at as int], found),
            )
        }
    }

    pub open spec fn const_deps_fields(
        self,
        decls: Seq<ConstDecl<'hir>>,
        owner: Option<&'hir str>,
        fields: Seq<ast::FieldInit<'hir>>,
        at: nat,
        found: Seq<usize>,
    ) -> Seq<usize>
        decreases fields, fields.len() - at,
    {
        if at >= fields.len() {
            found
        } else {
            self.const_deps_fields(
                decls,
                owner,
                fields,
                at + 1,
                self.const_deps(decls, owner, fields[at as int].value, found),
            )
        }
    }

    /// Which constants each constant refers to.
    pub open spec fn const_graph(self, decls: Seq<ConstDecl<'hir>>) -> Graph {
        Seq::new(
            decls.len(),
            |i: int| self.const_deps(decls, decls[i].owner, decls[i].ast.value, seq![]),
        )
    }

    /// Lowers one constant.
    pub open spec fn extend_const(self, decl: ConstDecl<'hir>) -> (Names<'hir>, Outcome<()>) {
        match self.resolve_or_poison(decl.ast.typ, ResolveCtx::root_spec(), MAX_DEPTH as nat) {
            (names, Err(error)) => (names, Err(error)),
            (names, Ok(typ)) => {
                let (body, outcome) = Body::for_const(names).lower_initialiser(
                    decl.ast.value,
                    typ,
                );
                let names = body.names;
                match outcome {
                    Err(error) => names.soft(error),
                    Ok((value, typeck)) => (
                        Names {
                            constants: with_constant(
                                names.constants,
                                ConstTree {
                                    name: decl.symbol,
                                    typ,
                                    value,
                                    typeck,
                                    is_pub: decl.ast.is_pub,
                                    decl_span: decl.ast.span,
                                },
                            ),
                            ..names
                        },
                        Ok(()),
                    ),
                }
            },
        }
    }

    /// Lowers constants in the given order from position `at` on.
    pub open spec fn extend_sorted(
        self,
        decls: Seq<ConstDecl<'hir>>,
        order: Seq<usize>,
        at: nat,
    ) -> (Names<'hir>, Outcome<()>)
        decreases order.len() - at,
    {
        if at >= order.len() {
            (self, Ok(()))
        } else if order[at as int] >= decls.len() {
            self.extend_sorted(decls, order, at + 1)
        } else {
            match self.extend_const(decls[order[at as int] as int]) {
                (names, Err(error)) => (names, Err(error)),
                (names, Ok(_)) => names.extend_sorted(decls, order, at + 1),
            }
        }
    }

    /// Adds the constants of a module, each after those it refers to. If one refers to itself,
    /// none is added.
    pub open spec fn extend_constants(self, items: Items<'hir>) -> (Names<'hir>, Outcome<()>) {
        match self.module_consts(items.constants, 0, seq![]) {
            (names, Err(error)) => (names, Err(error)),
            (names, Ok(decls)) => match names.impls_consts(items.impls, 0, decls) {
                (names, Err(error)) => (names, Err(error)),
                (names, Ok(decls)) => match sorted_graph(names.const_graph(decls)) {
                    Ok(order) => names.extend_sorted(decls, order, 0),
                    Err(cycle) => if cycle < decls.len() {
                        let decl = decls[cycle as int];
                        names.soft(
                            HirError::new(
                                HirErrorKind::CircularConstant { name: decl_name(decl) },
                                decl.ast.span,
                            ),
                        )
                    } else {
                        (names, Ok(()))
                    },
                },
            },
        }
    }
}

impl<'hir> Names<'hir> {
    /// Collecting constants only adds to the namespace.
    proof fn lemma_collected(self, items: Items<'hir>)
        ensures
            extends(
                self.ledger(),
                (match self.module_consts(items.constants, 0, seq![]) {
                    (names, Err(error)) => (names, Err(error)),
                    (names, Ok(decls)) => names.impls_consts(items.impls, 0, decls),
                }).0.ledger(),
            ),
    {
        self.lemma_module_consts_grows(items.constants, 0, seq![]);
        if let (names, Ok(decls)) = self.module_consts(items.constants, 0, seq![]) {
            names.lemma_impls_consts_grows(items.impls, 0, decls);
            let after = names.impls_consts(items.impls, 0, decls).0;
            lemma_extends_trans(self.ledger(), names.ledger(), after.ledger());
        }
    }
}

/// The outcome of collecting constants as contracts see it.
pub open spec fn seen_decls<'hir>(
    result: Result<Vec<ConstDecl<'hir>>, HirError<&'hir str>>,
) -> Outcome<Seq<ConstDecl<'hir>>> {
    match result {
        Ok(decls) => Ok(decls@),
        Err(error) => Err(error@),
    }
}

impl<'hir> Scope<'hir> {
    fn decl_name(&self, decl: ConstDecl<'hir>) -> (name: &'hir str)
        ensures
            name@ == decl_name(decl),
    {
        match decl.owner {
            Some(owner) => qualified(self.arena, owner, decl.ast.name),
            None => decl.ast.name,
        }
    }

    fn add_const(
        &mut self,
        mangled: &str,
        owner: Option<&'hir str>,
        ast: &'hir ast::Const<'hir>,
        decls: &mut Vec<ConstDecl<'hir>>,
    ) -> (outcome: Result<(), HirError<&'hir str>>)
        ensures
            ({
                let (names, expected) = old(self)@.add_const(mangled@, owner, ast, old(decls)@);
                &&& final(self)@ == names
                &&& match (outcome, expected) {
                    (Ok(_), Ok(after)) => final(decls)@ == after,
                    (Err(error), Err(expected)) => error@ == expected,
                    _ => false,
                }
            }),
    {
        let symbol = self.insert(mangled);
        let decl = ConstDecl { symbol, owner, ast };
        if find_decl(decls, symbol).is_some() {
            let name = self.decl_name(decl);
            return self.soft(
                HirError::new(HirErrorKind::DuplicateConstant { name }, ast.span),
            );
        }
        decls.push(decl);
        Ok(())
    }

    fn collect_consts(&mut self, declarations: &Declarations<'hir>) -> (outcome: Result<
        Vec<ConstDecl<'hir>>,
        HirError<&'hir str>,
    >)
        ensures
            (final(self)@, seen_decls(outcome)) == (match old(self)@.module_consts(
                declarations@.constants,
                0,
                seq![],
            ) {
                (names, Err(error)) => (names, Err(error)),
                (names, Ok(decls)) => names.impls_consts(declarations@.impls, 0, decls),
            }),
    {
        let mut decls: Vec<ConstDecl<'hir>> = Vec::new();
        let constants = &declarations.constants;
        let mut i: usize = 0;
        while i < constants.len()
            invariant
                i <= constants@.len(),
                constants@ == declarations@.constants,
                old(self)@.module_consts(constants@, 0, seq![]) == self@.module_consts(
                    constants@,
                    i as nat,
                    decls@,
                ),
            decreases constants@.len() - i,
        {
            let mangled = self.mangler.item(constants[i].name);
            if let Err(error) = self.add_const(mangled.as_str(), None, constants[i], &mut decls) {
                return Err(error);
            }
            i += 1;
        }
        let ghost names = self@;
        let ghost own = decls@;
        let impls = &declarations.impls;
        let mut i: usize = 0;
        while i < impls.len()
            invariant
                i <= impls@.len(),
                impls@ == declarations@.impls,
                old(self)@.module_consts(declarations@.constants, 0, seq![]) == (
                names, Ok::<Seq<ConstDecl<'hir>>, HirError<Seq<char>>>(own)),
                names.impls_consts(impls@, 0, own) == self@.impls_consts(
                    impls@,
                    i as nat,
                    decls@,
                ),
            decreases impls@.len() - i,
        {
            if let Err(error) = self.impl_consts(impls[i], &mut decls) {
                return Err(error);
            }
            i += 1;
        }
        Ok(decls)
    }

    fn impl_consts(
        &mut self,
        implementation: &'hir ast::Impl<'hir>,
        decls: &mut Vec<ConstDecl<'hir>>,
    ) -> (outcome: Result<(), HirError<&'hir str>>)
        ensures
            ({
                let (names, expected) = old(self)@.impl_consts(*implementation, 0, old(decls)@);
                &&& final(self)@ == names
                &&& match (outcome, expected) {
                    (Ok(_), Ok(after)) => final(decls)@ == after,
                    (Err(error), Err(expected)) => error@ == expected,
                    _ => false,
                }
            }),
    {
        let constants = implementation.constants;
        let mut i: usize = 0;
        while i < constants.len()
            invariant
                i <= constants@.len(),
                constants == implementation.constants,
                old(self)@.impl_consts(*implementation, 0, old(decls)@) == self@.impl_consts(
                    *implementation,
                    i as nat,
                    decls@,
                ),
            decreases constants@.len() - i,
        {
            let ast = &constants[i];
            let mangled = self.mangler.scoped_item(implementation.name, ast.name);
            if let Err(error) = self.add_const(
                mangled.as_str(),
                Some(implementation.name),
                ast,
                decls,
            ) {
                return Err(error);
            }
            i += 1;
        }
        Ok(())
    }

    fn const_at(&self, decls: &Vec<ConstDecl<'hir>>, mangled: &str) -> (position: Option<usize>)
        ensures
            position == self@.const_at(decls@, mangled@),
    {
        match self.symbols.get_id(mangled) {
            Some(symbol) => find_decl(decls, symbol),
            None => None,
        }
    }

    fn named_const(
        &self,
        decls: &Vec<ConstDecl<'hir>>,
        owner: Option<&'hir str>,
        name: &str,
    ) -> (position: Option<usize>)
        ensures
            position == self@.named_const(decls@, owner, name@),
    {
        if let Some(owner) = owner {
            let scoped = self.mangler.scoped_item(owner, name);
            let found = self.const_at(decls, scoped.as_str());
            if found.is_some() {
                return found;
            }
        }
        let item = self.mangler.item(name);
        self.const_at(decls, item.as_str())
    }

    fn const_deps(
        &self,
        decls: &Vec<ConstDecl<'hir>>,
        owner: Option<&'hir str>,
        expr: &Expression<'hir>,
        found: &mut Vec<usize>,
    )
        ensures
            final(found)@ == self@.const_deps(decls@, owner, *expr, old(found)@),
        decreases *expr, 0nat,
    {
        match expr {
            Expression::Identifier(name, _) => {
                if let Some(position) = self.named_const(decls, owner, name) {
                    found.push(position);
                }
            },
            Expression::QualifiedName(expr) => {
                let mangled = self.mangler.scoped_item(expr.qualifier, expr.name);
                if let Some(position) = self.const_at(decls, mangled.as_str()) {
                    found.push(position);
                }
            },
            Expression::Unary(expr) => self.const_deps(decls, owner, expr.expr, found),
            Expression::Binary(expr) => {
                self.const_deps(decls, owner, expr.left, found);
                self.const_deps(decls, owner, expr.right, found);
            },
            Expression::Assignment(expr) => {
                self.const_deps(decls, owner, expr.target, found);
                self.const_deps(decls, owner, expr.value, found);
            },
            Expression::Cast(expr) => self.const_deps(decls, owner, expr.expr, found),
            Expression::Struct(expr) => self.const_deps_fields(decls, owner, expr.fields, found),
            Expression::Field(expr) => self.const_deps(decls, owner, expr.expr, found),
            Expression::Array(expr) => self.const_deps_list(decls, owner, expr.elements, found),
            Expression::ArrayRepeat(expr) => self.const_deps(decls, owner, expr.value, found),
            Expression::Index(expr) => {
                self.const_deps(decls, owner, expr.base, found);
                self.const_deps(decls, owner, expr.index, found);
            },
            Expression::Call(expr) => {
                self.const_deps(decls, owner, expr.callee, found);
                self.const_deps_list(decls, owner, expr.args, found);
            },
            Expression::QualifiedCall(expr) => self.const_deps_list(
                decls,
                owner,
                expr.args,
                found,
            ),
            _ => {},
        }
    }

    fn const_deps_list(
        &self,
        decls: &Vec<ConstDecl<'hir>>,
        owner: Option<&'hir str>,
        exprs: &Vec<Expression<'hir>>,
        found: &mut Vec<usize>,
    )
        ensures
            final(found)@ == self@.const_deps_list(decls@, owner, exprs@, 0, old(found)@),
        decreases exprs@, exprs@.len() + 1,
    {
        let mut i: usize = 0;
        while i < exprs.len()
            invariant
                i <= exprs@.len(),
                self@.const_deps_list(decls@, owner, exprs@, 0, old(found)@)
                    == self@.const_deps_list(decls@, owner, exprs@, i as nat, found@),
            decreases exprs@.len() - i,
        {
            self.const_deps(decls, owner, &exprs[i], found);
            i += 1;
        }
    }

    fn const_deps_fields(
        &self,
        decls: &Vec<ConstDecl<'hir>>,
        owner: Option<&'hir str>,
        fields: &Vec<ast::FieldInit<'hir>>,
        found: &mut Vec<usize>,
    )
        ensures
            final(found)@ == self@.const_deps_fields(decls@, owner, fields@, 0, old(found)@),
        decreases fields@, fields@.len() + 1,
    {
        let mut i: usize = 0;
        while i < fields.len()
            invariant
                i <= fields@.len(),
                self@.const_deps_fields(decls@, owner, fields@, 0, old(found)@)
                    == self@.const_deps_fields(decls@, owner, fields@, i as nat, found@),
            decreases fields@.len() - i,
        {
            self.const_deps(decls, owner, &fields[i].value, found);
            i += 1;
        }
    }

    fn const_graph(&self, decls: &Vec<ConstDecl<'hir>>) -> (deps: Vec<Vec<usize>>)
        ensures
            graph_of(deps@) == self@.const_graph(decls@),
    {
        let mut deps: Vec<Vec<usize>> = Vec::new();
        let mut i: usize = 0;
        while i < decls.len()
            invariant
                i <= decls@.len(),
                graph_of(deps@) =~= self@.const_graph(decls@).take(i as int),
            decreases decls@.len() - i,
        {
            let mut found: Vec<usize> = Vec::new();
            assert(found@ =~= seq![]);
            self.const_deps(decls, decls[i].owner, &decls[i].ast.value, &mut found);
            let ghost before = deps@;
            let ghost added = found@;
            deps.push(found);
            assert(graph_of(deps@) =~= graph_of(before).push(added));
            assert(self@.const_graph(decls@)[i as int] == added);
            i += 1;
        }
        assert(graph_of(deps@) =~= self@.const_graph(decls@));
        deps
    }

    fn extend_const(self, decl: ConstDecl<'hir>) -> (result: (
        Scope<'hir>,
        Result<(), HirError<&'hir str>>,
    ))
        ensures
            (result.0@, seen(result.1)) == self@.extend_const(decl),
            self@.constants_concrete() ==> result.0@.constants_concrete(),
    {
        let mut scope = self;
        let ctx = ResolveCtx::root(scope.arena);
        let resolved = scope.resolve_or_poison(&decl.ast.typ, ctx, MAX_DEPTH);
        proof {
            self@.lemma_resolve_or_poison_grows(decl.ast.typ, ctx, MAX_DEPTH as nat);
            if self@.constants_concrete() {
                lemma_kept_constants(self@, scope@);
            }
        }
        let typ = match resolved {
            Err(error) => return (scope, Err(error)),
            Ok(typ) => typ,
        };
        let ghost start = scope@;
        let (mut scope, outcome) = lower_const(scope, &decl.ast.value, typ);
        proof {
            Body::for_const(start).lemma_lower_initialiser_grows(decl.ast.value, typ);
            if start.constants_concrete() {
                lemma_kept_constants(start, scope@);
            }
        }
        match outcome {
            Err(error) => {
                let outcome = scope.soft(error);
                (scope, outcome)
            },
            Ok((value, typeck)) => {
                let constant = scope.arena.place(
                    Constant {
                        name: decl.symbol,
                        typ,
                        value,
                        typeck,
                        is_pub: decl.ast.is_pub,
                        decl_span: decl.ast.span,
                    },
                );
                proof {
                    if self@.constants_concrete() {
                        lemma_constant_added(
                            scope@.arrays.types,
                            scope@.constants,
                            const_tree(*constant),
                        );
                    }
                }
                put_constant(&mut scope.constants, constant);
                (scope, Ok(()))
            },
        }
    }

    /// Adds the constants of a module, each after those it refers to.
    pub fn extend_constants(self, declarations: &Declarations<'hir>) -> (result: (
        Scope<'hir>,
        Result<(), HirError<&'hir str>>,
    ))
        ensures
            (result.0@, seen(result.1)) == self@.extend_constants(declarations@),
            self@.constants_concrete() ==> result.0@.constants_concrete(),
    {
        let mut scope = self;
        let collected = scope.collect_consts(declarations);
        proof {
            self@.lemma_collected(declarations@);
            if self@.constants_concrete() {
                lemma_kept_constants(self@, scope@);
            }
        }
        let decls = match collected {
            Err(error) => return (scope, Err(error)),
            Ok(decls) => decls,
        };
        let deps = scope.const_graph(&decls);
        let order = match topological_sort(&deps) {
            Ok(order) => order,
            Err(cycle) => {
                if cycle >= decls.len() {
                    return (scope, Ok(()));
                }
                let decl = decls[cycle];
                let name = scope.decl_name(decl);
                let outcome = scope.soft(
                    HirError::new(HirErrorKind::CircularConstant { name }, decl.ast.span),
                );
                return (scope, outcome);
            },
        };
        let ghost start = scope@;
        assert(self@.extend_constants(declarations@) == start.extend_sorted(decls@, order@, 0));
        let mut i: usize = 0;
        while i < order.len()
            invariant
                i <= order@.len(),
                self@.extend_constants(declarations@) == scope@.extend_sorted(
                    decls@,
                    order@,
                    i as nat,
                ),
                self@.constants_concrete() ==> scope@.constants_concrete(),
            decreases order@.len() - i,
        {
            let position: usize = order[i];
            if position < decls.len() {
                let (next, outcome) = scope.extend_const(decls[position]);
                scope = next;
                if let Err(error) = outcome {
                    return (scope, Err(error));
                }
            }
            i += 1;
        }
        (scope, Ok(()))
    }
}

} // verus!
