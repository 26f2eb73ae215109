//! The graph of imports.

use crate::arena::Arena;
use crate::ast::{no_span, ItemKind, Span, Spanned, Statement, UseDecl};
use crate::hir::topo::{
    graph_of, is_dependency_order, sorted_graph, topological_sort, Graph,
};
use crate::module::error::{seen_module, ModuleError};
use crate::module::paths::{
    comes_before, is_within, join_path, joined_path, path_before, path_within,
};
use crate::module::resolver::{segment_views, ModuleResolver, Roots};
use crate::text::text_eq;
use vstd::prelude::*;

verus! {

/// A file that can be read: the path it is asked for by, the one path that stands for it, and
/// what it holds.
#[derive(Debug, Clone, Copy)]
pub struct ModuleFile<'s> {
    pub path: &'s str,
    pub canonical: &'s str,
    pub statements: &'s Vec<Statement<'s>>,
}

/// The first file at or after `at` that a path leads to.
pub open spec fn find_file(files: Seq<ModuleFile>, path: Seq<char>, at: nat) -> Option<nat>
    decreases files.len() - at,
{
    if at >= files.len() {
        None
    } else if files[at as int].path@ == path || files[at as int].canonical@ == path {
        Some(at)
    } else {
        find_file(files, path, at + 1)
    }
}

/// The first file at or after `at` that stands under the path.
pub open spec fn find_canonical(files: Seq<ModuleFile>, path: Seq<char>, at: nat) -> Option<nat>
    decreases files.len() - at,
{
    if at >= files.len() {
        None
    } else if files[at as int].canonical@ == path {
        Some(at)
    } else {
        find_canonical(files, path, at + 1)
    }
}

pub(crate) fn file_index(files: &Vec<ModuleFile>, path: &str) -> (found: Option<usize>)
    ensures
        match found {
            Some(index) => find_file(files@, path@, 0) == Some(index as nat) && index < files@.len(),
            None => find_file(files@, path@, 0) is None,
        },
{
    let mut i: usize = 0;
    while i < files.len()
        invariant
            i <= files@.len(),
            find_file(files@, path@, 0) == find_file(files@, path@, i as nat),
        decreases files@.len() - i,
    {
        if text_eq(files[i].path, path) || text_eq(files[i].canonical, path) {
            return Some(i);
        }
        i = i + 1;
    }
    None
}

pub(crate) fn canonical_index(files: &Vec<ModuleFile>, path: &str) -> (found: Option<usize>)
    ensures
        match found {
            Some(index) => find_canonical(files@, path@, 0) == Some(index as nat) && index
                < files@.len(),
            None => find_canonical(files@, path@, 0) is None,
        },
{
    let mut i: usize = 0;
    while i < files.len()
        invariant
            i <= files@.len(),
            find_canonical(files@, path@, 0) == find_canonical(files@, path@, i as nat),
        decreases files@.len() - i,
    {
        if text_eq(files[i].canonical, path) {
            return Some(i);
        }
        i = i + 1;
    }
    None
}

/// A module: its file, what it holds, the names it exports, and whether it belongs to the
/// standard library.
#[derive(Debug)]
pub struct ModuleNode<'s> {
    pub path: &'s str,
    pub statements: &'s Vec<Statement<'s>>,
    pub exports: Vec<&'s str>,
    pub in_std: bool,
}

pub ghost struct Node<'s> {
    pub path: Seq<char>,
    pub statements: Seq<Statement<'s>>,
    pub exports: Seq<Seq<char>>,
    pub in_std: bool,
}

impl<'s> View for ModuleNode<'s> {
    type V = Node<'s>;

    open spec fn view(&self) -> Node<'s> {
        Node {
            path: self.path@,
            statements: self.statements@,
            exports: segment_views(self.exports@),
            in_std: self.in_std,
        }
    }
}

pub open spec fn node_views<'s>(nodes: Seq<ModuleNode<'s>>) -> Seq<Node<'s>> {
    nodes.map_values(|node: ModuleNode<'s>| node@)
}

/// The name that a statement exports.
pub open spec fn exported<'s>(statement: Statement<'s>) -> Option<&'s str> {
    match statement {
        Statement::Item(item) => match item.kind {
            ItemKind::Fn(function) => if function.is_pub {
                Some(function.name)
            } else {
                None
            },
            ItemKind::Struct(structure) => if structure.is_pub {
                Some(structure.name)
            } else {
                None
            },
            ItemKind::Enum(enumeration) => if enumeration.is_pub {
                Some(enumeration.name)
            } else {
                None
            },
            ItemKind::Interface(interface) => if interface.is_pub {
                Some(interface.name)
            } else {
                None
            },
            ItemKind::Const(constant) => if constant.is_pub {
                Some(constant.name)
            } else {
                None
            },
            _ => None,
        },
        _ => None,
    }
}

/// The names exported by the statements from `at` on.
pub open spec fn exports_from<'s>(
    statements: Seq<Statement<'s>>,
    at: nat,
    names: Seq<&'s str>,
) -> Seq<&'s str>
    decreases statements.len() - at,
{
    if at >= statements.len() {
        names
    } else {
        exports_from(
            statements,
            at + 1,
            match exported(statements[at as int]) {
                Some(name) => names.push(name),
                None => names,
            },
        )
    }
}

fn exported_name<'s>(statement: &Statement<'s>) -> (name: Option<&'s str>)
    ensures
        name == exported(*statement),
{
    match statement {
        Statement::Item(item) => match item.kind {
            ItemKind::Fn(function) => if function.is_pub {
                Some(function.name)
            } else {
                None
            },
            ItemKind::Struct(structure) => if structure.is_pub {
                Some(structure.name)
            } else {
                None
            },
            ItemKind::Enum(enumeration) => if enumeration.is_pub {
                Some(enumeration.name)
            } else {
                None
            },
            ItemKind::Interface(interface) => if interface.is_pub {
                Some(interface.name)
            } else {
                None
            },
            ItemKind::Const(constant) => if constant.is_pub {
                Some(constant.name)
            } else {
                None
            },
            _ => None,
        },
        _ => None,
    }
}

fn exports<'s>(statements: &'s Vec<Statement<'s>>) -> (names: Vec<&'s str>)
    ensures
        names@ == exports_from(statements@, 0, Seq::empty()),
{
    let mut names: Vec<&'s str> = Vec::new();
    let mut i: usize = 0;
    while i < statements.len()
        invariant
            i <= statements@.len(),
            exports_from(statements@, 0, Seq::empty()) == exports_from(
                statements@,
                i as nat,
                names@,
            ),
        decreases statements@.len() - i,
    {
        match exported_name(&statements[i]) {
            Some(name) => names.push(name),
            None => {},
        }
        i = i + 1;
    }
    names
}

fn has_name(names: &Vec<&str>, name: &str) -> (found: bool)
    ensures
        found == segment_views(names@).contains(name@),
{
    let ghost views = segment_views(names@);
    let mut i: usize = 0;
    while i < names.len()
        invariant
            i <= names@.len(),
            views == segment_views(names@),
            forall|k: int| 0 <= k < i ==> views[k] != name@,
        decreases names@.len() - i,
    {
        assert(views[i as int] == names@[i as int]@);
        if text_eq(names[i], name) {
            return true;
        }
        i = i + 1;
    }
    false
}

/// The modules found so far, the imports between them, and those whose imports are being
/// followed.
pub ghost struct Discovery<'s> {
    pub nodes: Seq<Node<'s>>,
    pub edges: Seq<(usize, usize)>,
    pub in_flight: Seq<Seq<char>>,
}

/// The first module at or after `at` with the path.
pub open spec fn node_at(nodes: Seq<Node>, path: Seq<char>, at: nat) -> Option<nat>
    decreases nodes.len() - at,
{
    if at >= nodes.len() {
        None
    } else if nodes[at as int].path == path {
        Some(at)
    } else {
        node_at(nodes, path, at + 1)
    }
}

/// The first item at or after `at` that a module does not export.
pub open spec fn missing_item<'s>(
    exports: Seq<Seq<char>>,
    items: Seq<Spanned<&'s str>>,
    at: nat,
) -> Option<Spanned<&'s str>>
    decreases items.len() - at,
{
    if at >= items.len() {
        None
    } else if exports.contains(items[at as int].value@) {
        missing_item(exports, items, at + 1)
    } else {
        Some(items[at as int])
    }
}

pub open spec fn triggered(span: Option<Span>) -> Span {
    match span {
        Some(span) => span,
        None => no_span(),
    }
}

impl<'s> Discovery<'s> {
    /// Finds a module and all it imports. Gives its number.
    pub open spec fn discover(
        self,
        roots: Roots,
        files: Seq<ModuleFile<'s>>,
        canonical: Seq<char>,
        by: Option<Span>,
    ) -> (Discovery<'s>, Result<usize, ModuleError<Seq<char>>>)
        decreases files.len() - self.in_flight.len(), 2nat, 0nat,
    {
        if self.in_flight.contains(canonical) {
            (self, Err(ModuleError::CircularImport { path: canonical, span: triggered(by) }))
        } else {
            match node_at(self.nodes, canonical, 0) {
                Some(index) => (self, Ok(index as usize)),
                None => match find_canonical(files, canonical, 0) {
                    None => (self, Err(ModuleError::FileNotFound { path: canonical, span: by })),
                    Some(file) => self.enter(roots, files, canonical, files[file as int].statements@),
                },
            }
        }
    }

    /// A new module and all it imports.
    pub open spec fn enter(
        self,
        roots: Roots,
        files: Seq<ModuleFile<'s>>,
        canonical: Seq<char>,
        statements: Seq<Statement<'s>>,
    ) -> (Discovery<'s>, Result<usize, ModuleError<Seq<char>>>)
        decreases files.len() - self.in_flight.len(), 1nat, 0nat,
    {
        if self.in_flight.len() >= files.len() {
            arbitrary()
        } else {
            let index = self.nodes.len() as usize;
            let node = Node {
                path: canonical,
                statements,
                exports: segment_views(exports_from(statements, 0, Seq::empty())),
                in_std: is_within(canonical, roots.std),
            };
            let entered = Discovery {
                nodes: self.nodes.push(node),
                in_flight: self.in_flight.push(canonical),
                ..self
            };
            match entered.imports(roots, files, index, statements, 0, self.in_flight) {
                (after, Err(error)) => (after, Err(error)),
                (after, Ok(_)) => (Discovery { in_flight: self.in_flight, ..after }, Ok(index)),
            }
        }
    }

    /// The imports of a module from `at` on. `outer` are the modules whose imports were being
    /// followed before this one.
    pub open spec fn imports(
        self,
        roots: Roots,
        files: Seq<ModuleFile<'s>>,
        index: usize,
        statements: Seq<Statement<'s>>,
        at: nat,
        outer: Seq<Seq<char>>,
    ) -> (Discovery<'s>, Result<(), ModuleError<Seq<char>>>)
        decreases files.len() - outer.len(), 0nat, statements.len() - at,
    {
        if at >= statements.len() {
            (self, Ok(()))
        } else {
            match statements[at as int] {
                Statement::Item(item) => match item.kind {
                    ItemKind::Use(declaration) => if outer.len() >= files.len()
                        || self.in_flight.len() != outer.len() + 1 {
                        arbitrary()
                    } else {
                        match self.import(roots, files, index, *declaration) {
                            (after, Err(error)) => (after, Err(error)),
                            (after, Ok(_)) => after.imports(
                                roots,
                                files,
                                index,
                                statements,
                                at + 1,
                                outer,
                            ),
                        }
                    },
                    _ => self.imports(roots, files, index, statements, at + 1, outer),
                },
                _ => self.imports(roots, files, index, statements, at + 1, outer),
            }
        }
    }

    /// One import of a module. A path that leads to no file is passed over: it may name an item
    /// built into the compiler.
    pub open spec fn import(
        self,
        roots: Roots,
        files: Seq<ModuleFile<'s>>,
        index: usize,
        declaration: UseDecl<'s>,
    ) -> (Discovery<'s>, Result<(), ModuleError<Seq<char>>>)
        decreases files.len() - self.in_flight.len(), 3nat, 0nat,
    {
        match roots.resolve(segment_views(declaration.path@), declaration.span) {
            Err(error) => (self, Err(error)),
            Ok(resolved) => match find_file(files, resolved, 0) {
                None => (self, Ok(())),
                Some(file) => {
                    let import = files[file as int].canonical@;
                    match self.discover(roots, files, import, Some(declaration.span)) {
                        (after, Err(error)) => (after, Err(error)),
                        (after, Ok(found)) => {
                            let linked = Discovery {
                                edges: after.edges.push((index, found)),
                                ..after
                            };
                            match missing_item(
                                after.nodes[found as int].exports,
                                declaration.items@,
                                0,
                            ) {
                                Some(item) => (
                                    linked,
                                    Err(
                                        ModuleError::UnknownExport {
                                            path: import,
                                            name: item.value@,
                                            span: item.span,
                                        },
                                    ),
                                ),
                                None => (linked, Ok(())),
                            }
                        },
                    }
                },
            }
        }
    }
}

struct GraphBuilder<'a, 's> {
    resolver: ModuleResolver<'s>,
    files: &'a Vec<ModuleFile<'s>>,
    arena: &'s Arena,
    nodes: Vec<ModuleNode<'s>>,
    edges: Vec<(usize, usize)>,
    in_flight: Vec<&'s str>,
}

impl<'a, 's> View for GraphBuilder<'a, 's> {
    type V = Discovery<'s>;

    closed spec fn view(&self) -> Discovery<'s> {
        Discovery {
            nodes: node_views(self.nodes@),
            edges: self.edges@,
            in_flight: segment_views(self.in_flight@),
        }
    }
}

/// Whether the modules whose imports are being followed are different files.
pub open spec fn flight_ok(files: Seq<ModuleFile>, in_flight: Seq<Seq<char>>) -> bool {
    &&& in_flight.no_duplicates()
    &&& forall|i: int|
        0 <= i < in_flight.len() ==> find_canonical(files, #[trigger] in_flight[i], 0) is Some
}

pub(crate) proof fn lemma_find_canonical(files: Seq<ModuleFile>, path: Seq<char>, at: nat)
    ensures
        match find_canonical(files, path, at) {
            Some(index) => at <= index < files.len() && files[index as int].canonical@ == path,
            None => forall|i: int|
                at <= i < files.len() ==> (#[trigger] files[i]).canonical@ != path,
        },
    decreases files.len() - at,
{
    if at < files.len() {
        lemma_find_canonical(files, path, at + 1);
    }
}

/// There are no more different files than files.
proof fn lemma_flight_bound(files: Seq<ModuleFile>, in_flight: Seq<Seq<char>>)
    requires
        flight_ok(files, in_flight),
    ensures
        in_flight.len() <= files.len(),
{
    let names = files.map_values(|file: ModuleFile| file.canonical@);
    names.lemma_cardinality_of_set();
    in_flight.unique_seq_to_set();
    assert(in_flight.to_set().subset_of(names.to_set())) by {
        assert forall|name: Seq<char>| in_flight.to_set().contains(name) implies names.to_set().contains(
            name,
        ) by {
            let i = choose|i: int| 0 <= i < in_flight.len() && in_flight[i] == name;
            assert(find_canonical(files, in_flight[i], 0) is Some);
            lemma_find_canonical(files, in_flight[i], 0);
            let index = find_canonical(files, in_flight[i], 0)->0 as int;
            assert(names[index] == name);
            assert(names.contains(name));
        }
    }
    vstd::set_lib::lemma_len_subset(in_flight.to_set(), names.to_set());
}

pub(crate) proof fn lemma_flight_push(files: Seq<ModuleFile>, in_flight: Seq<Seq<char>>, path: Seq<char>)
    requires
        flight_ok(files, in_flight),
        !in_flight.contains(path),
        find_canonical(files, path, 0) is Some,
    ensures
        flight_ok(files, in_flight.push(path)),
        in_flight.len() < files.len(),
{
    let next = in_flight.push(path);
    assert forall|i: int| 0 <= i < next.len() implies find_canonical(
        files,
        #[trigger] next[i],
        0,
    ) is Some by {
        if i < in_flight.len() {
            assert(next[i] == in_flight[i]);
        }
    }
    assert forall|i: int, j: int| 0 <= i < next.len() && 0 <= j < next.len() && i != j implies next[i]
        != next[j] by {
        if i < in_flight.len() && j < in_flight.len() {
        } else if i < in_flight.len() {
            assert(in_flight.contains(in_flight[i]));
        } else {
            assert(in_flight.contains(in_flight[j]));
        }
    }
    lemma_flight_bound(files, next);
}

fn missing<'s>(exports: &Vec<&'s str>, items: &'s Vec<Spanned<&'s str>>) -> (item: Option<
    Spanned<&'s str>,
>)
    ensures
        item == missing_item(segment_views(exports@), items@, 0),
{
    let mut i: usize = 0;
    while i < items.len()
        invariant
            i <= items@.len(),
            missing_item(segment_views(exports@), items@, 0) == missing_item(
                segment_views(exports@),
                items@,
                i as nat,
            ),
        decreases items@.len() - i,
    {
        if !has_name(exports, items[i].value) {
            return Some(items[i]);
        }
        i = i + 1;
    }
    None
}

impl<'a, 's> GraphBuilder<'a, 's> {
    spec fn same_world(self, other: Self) -> bool {
        self.resolver == other.resolver && self.files == other.files && self.arena == other.arena
    }

    fn node_index(&self, path: &str) -> (found: Option<usize>)
        ensures
            match found {
                Some(index) => node_at(self@.nodes, path@, 0) == Some(index as nat) && index
                    < self.nodes@.len(),
                None => node_at(self@.nodes, path@, 0) is None,
            },
    {
        let mut i: usize = 0;
        while i < self.nodes.len()
            invariant
                i <= self.nodes@.len(),
                self@.nodes == node_views(self.nodes@),
                node_at(self@.nodes, path@, 0) == node_at(self@.nodes, path@, i as nat),
            decreases self.nodes@.len() - i,
        {
            assert(self@.nodes[i as int] == self.nodes@[i as int]@);
            if text_eq(self.nodes[i].path, path) {
                return Some(i);
            }
            i = i + 1;
        }
        None
    }

    fn discover(&mut self, canonical: &'s str, by: Option<Span>) -> (outcome: Result<
        usize,
        ModuleError<&'s str>,
    >)
        requires
            flight_ok(old(self).files@, old(self)@.in_flight),
        ensures
            (final(self)@, seen_module(outcome)) == old(self)@.discover(
                old(self).resolver@,
                old(self).files@,
                canonical@,
                by,
            ),
            final(self).same_world(*old(self)),
            final(self).nodes@.len() >= old(self).nodes@.len(),
            outcome is Ok ==> final(self)@.in_flight == old(self)@.in_flight && outcome->Ok_0
                < final(self).nodes@.len(),
        decreases old(self).files@.len() - old(self)@.in_flight.len(), 2nat, 0nat,
    {
        if has_name(&self.in_flight, canonical) {
            return Err(
                ModuleError::CircularImport {
                    path: canonical,
                    span: match by {
                        Some(span) => span,
                        None => Span::new(0, 0),
                    },
                },
            );
        }
        match self.node_index(canonical) {
            Some(index) => Ok(index),
            None => match canonical_index(self.files, canonical) {
                None => Err(ModuleError::FileNotFound { path: canonical, span: by }),
                Some(file) => {
                    let statements = self.files[file].statements;
                    self.enter(canonical, statements)
                },
            },
        }
    }

    fn enter(&mut self, canonical: &'s str, statements: &'s Vec<Statement<'s>>) -> (outcome: Result<
        usize,
        ModuleError<&'s str>,
    >)
        requires
            flight_ok(old(self).files@, old(self)@.in_flight),
            !old(self)@.in_flight.contains(canonical@),
            find_canonical(old(self).files@, canonical@, 0) is Some,
        ensures
            (final(self)@, seen_module(outcome)) == old(self)@.enter(
                old(self).resolver@,
                old(self).files@,
                canonical@,
                statements@,
            ),
            final(self).same_world(*old(self)),
            final(self).nodes@.len() >= old(self).nodes@.len(),
            outcome is Ok ==> final(self)@.in_flight == old(self)@.in_flight && outcome->Ok_0
                < final(self).nodes@.len(),
        decreases old(self).files@.len() - old(self)@.in_flight.len(), 1nat, 0nat,
    {
        proof {
            lemma_flight_push(self.files@, self@.in_flight, canonical@);
        }
        let index: usize = self.nodes.len();
        let in_std = path_within(canonical, self.resolver.std);
        let node = ModuleNode { path: canonical, statements, exports: exports(statements), in_std };
        let ghost shown = node@;
        self.nodes.push(node);
        assert(node_views(self.nodes@) =~= old(self)@.nodes.push(shown));
        self.in_flight.push(canonical);
        assert(segment_views(self.in_flight@) =~= old(self)@.in_flight.push(canonical@));
        let ghost outer = old(self)@.in_flight;
        assert(self@.in_flight.drop_last() =~= outer);
        match self.imports(index, statements) {
            Err(error) => Err(error),
            Ok(_) => {
                let ghost before = self.in_flight@;
                self.in_flight.pop();
                assert(segment_views(self.in_flight@) =~= outer);
                Ok(index)
            },
        }
    }

    fn imports(&mut self, index: usize, statements: &'s Vec<Statement<'s>>) -> (outcome: Result<
        (),
        ModuleError<&'s str>,
    >)
        requires
            old(self)@.in_flight.len() > 0,
            flight_ok(old(self).files@, old(self)@.in_flight),
            index < old(self).nodes@.len(),
        ensures
            (final(self)@, seen_module(outcome)) == old(self)@.imports(
                old(self).resolver@,
                old(self).files@,
                index,
                statements@,
                0,
                old(self)@.in_flight.drop_last(),
            ),
            final(self).same_world(*old(self)),
            final(self).nodes@.len() >= old(self).nodes@.len(),
            outcome is Ok ==> final(self)@.in_flight == old(self)@.in_flight
                && final(self).nodes@.len() > index,
        decreases old(self).files@.len() - old(self)@.in_flight.len() + 1, 0nat, statements@.len(),
    {
        let ghost outer = self@.in_flight.drop_last();
        let ghost flight = self@.in_flight;
        proof {
            lemma_flight_bound(self.files@, flight);
        }
        let mut i: usize = 0;
        while i < statements.len()
            invariant
                i <= statements@.len(),
                self.same_world(*old(self)),
                self.nodes@.len() >= old(self).nodes@.len(),
                self@.in_flight == flight,
                flight == old(self)@.in_flight,
                flight.len() > 0,
                flight.len() <= self.files@.len(),
                flight_ok(self.files@, flight),
                outer == flight.drop_last(),
                index < self.nodes@.len(),
                old(self)@.imports(
                    old(self).resolver@,
                    old(self).files@,
                    index,
                    statements@,
                    0,
                    outer,
                ) == self@.imports(
                    self.resolver@,
                    self.files@,
                    index,
                    statements@,
                    i as nat,
                    outer,
                ),
            decreases statements@.len() - i,
        {
            match statements[i] {
                Statement::Item(item) => match item.kind {
                    ItemKind::Use(declaration) => {
                        match self.import(index, declaration) {
                            Err(error) => return Err(error),
                            Ok(_) => {},
                        }
                    },
                    _ => {},
                },
                _ => {},
            }
            i = i + 1;
        }
        Ok(())
    }

    fn import(&mut self, index: usize, declaration: &'s UseDecl<'s>) -> (outcome: Result<
        (),
        ModuleError<&'s str>,
    >)
        requires
            flight_ok(old(self).files@, old(self)@.in_flight),
            index < old(self).nodes@.len(),
        ensures
            (final(self)@, seen_module(outcome)) == old(self)@.import(
                old(self).resolver@,
                old(self).files@,
                index,
                *declaration,
            ),
            final(self).same_world(*old(self)),
            final(self).nodes@.len() >= old(self).nodes@.len(),
            outcome is Ok ==> final(self)@.in_flight == old(self)@.in_flight
                && final(self).nodes@.len() > index,
        decreases old(self).files@.len() - old(self)@.in_flight.len(), 3nat, 0nat,
    {
        let resolved = match self.resolver.resolve_path(
            declaration.path,
            declaration.span,
            self.arena,
        ) {
            Err(error) => return Err(error),
            Ok(resolved) => resolved,
        };
        match file_index(self.files, resolved) {
            None => Ok(()),
            Some(file) => {
                let import = self.files[file].canonical;
                match self.discover(import, Some(declaration.span)) {
                    Err(error) => Err(error),
                    Ok(found) => {
                        self.edges.push((index, found));
                        assert(self@.nodes[found as int] == self.nodes@[found as int]@);
                        match missing(&self.nodes[found].exports, declaration.items) {
                            Some(item) => Err(
                                ModuleError::UnknownExport {
                                    path: import,
                                    name: item.value,
                                    span: item.span,
                                },
                            ),
                            None => Ok(()),
                        }
                    },
                }
            },
        }
    }
}

/// How many files the prelude has.
pub const PRELUDE_FILES: usize = 4;

/// The files of the standard library that every program is compiled with.
pub open spec fn prelude() -> Seq<Seq<char>> {
    seq!["int.nyx"@, "float.nyx"@, "char.nyx"@, "default.nyx"@]
}

impl<'s> Discovery<'s> {
    pub open spec fn start() -> Discovery<'s> {
        Discovery { nodes: Seq::empty(), edges: Seq::empty(), in_flight: Seq::empty() }
    }

    /// The modules of the prelude from `at` on, as far as their files are there.
    pub open spec fn discover_prelude(
        self,
        roots: Roots,
        files: Seq<ModuleFile<'s>>,
        names: Seq<Seq<char>>,
        at: nat,
    ) -> (Discovery<'s>, Result<(), ModuleError<Seq<char>>>)
        decreases names.len() - at,
    {
        if at >= names.len() {
            (self, Ok(()))
        } else {
            match find_file(files, join_path(roots.std, names[at as int]), 0) {
                None => self.discover_prelude(roots, files, names, at + 1),
                Some(file) => match self.discover(
                    roots,
                    files,
                    files[file as int].canonical@,
                    None,
                ) {
                    (after, Err(error)) => (after, Err(error)),
                    (after, Ok(_)) => after.discover_prelude(roots, files, names, at + 1),
                },
            }
        }
    }
}

/// The modules of a program. The entry is the first, and `reached` of them can be reached from
/// it: the others are in the prelude.
#[derive(Debug)]
pub struct ModuleGraph<'s> {
    pub nodes: Vec<ModuleNode<'s>>,
    /// Each import, by the number of the importing and the imported module
    pub edges: Vec<(usize, usize)>,
    pub entry: usize,
    pub reached: usize,
}

pub ghost struct Modules<'s> {
    pub nodes: Seq<Node<'s>>,
    pub edges: Seq<(usize, usize)>,
    pub entry: usize,
    pub reached: nat,
}

impl<'s> View for ModuleGraph<'s> {
    type V = Modules<'s>;

    open spec fn view(&self) -> Modules<'s> {
        Modules {
            nodes: node_views(self.nodes@),
            edges: self.edges@,
            entry: self.entry,
            reached: self.reached as nat,
        }
    }
}

/// The modules of the program that starts in a file.
pub open spec fn modules_of<'s>(
    roots: Roots,
    files: Seq<ModuleFile<'s>>,
    entry: Seq<char>,
) -> Result<Modules<'s>, ModuleError<Seq<char>>> {
    match find_file(files, entry, 0) {
        None => Err(ModuleError::FileNotFound { path: entry, span: None }),
        Some(file) => match Discovery::<'s>::start().discover(
            roots,
            files,
            files[file as int].canonical@,
            None,
        ) {
            (_, Err(error)) => Err(error),
            (found, Ok(entry)) => match found.discover_prelude(roots, files, prelude(), 0) {
                (_, Err(error)) => Err(error),
                (all, Ok(_)) => Ok(
                    Modules {
                        nodes: all.nodes,
                        edges: all.edges,
                        entry,
                        reached: found.nodes.len(),
                    },
                ),
            },
        },
    }
}

pub open spec fn seen_graph<'s>(result: Result<ModuleGraph<'s>, ModuleError<&'s str>>) -> Result<
    Modules<'s>,
    ModuleError<Seq<char>>,
> {
    match result {
        Ok(graph) => Ok(graph@),
        Err(error) => Err(error@),
    }
}

/// A file of the prelude.
pub fn prelude_name(index: usize) -> (name: &'static str)
    requires
        index < PRELUDE_FILES,
    ensures
        name@ == prelude()[index as int],
{
    match index {
        0 => "int.nyx",
        1 => "float.nyx",
        2 => "char.nyx",
        _ => "default.nyx",
    }
}

/// Finds the modules of the program that starts in a file: the entry, all that is imported from
/// it, and the prelude.
pub fn build_graph<'s>(
    entry: &'s str,
    resolver: ModuleResolver<'s>,
    files: &Vec<ModuleFile<'s>>,
    arena: &'s Arena,
) -> (outcome: Result<ModuleGraph<'s>, ModuleError<&'s str>>)
    ensures
        seen_graph(outcome) == modules_of(resolver@, files@, entry@),
        match outcome {
            Ok(graph) => graph.entry < graph.reached <= graph.nodes@.len(),
            Err(_) => true,
        },
{
    let canonical = match file_index(files, entry) {
        None => return Err(ModuleError::FileNotFound { path: entry, span: None }),
        Some(file) => files[file].canonical,
    };
    let mut builder = GraphBuilder {
        resolver,
        files,
        arena,
        nodes: Vec::new(),
        edges: Vec::new(),
        in_flight: Vec::new(),
    };
    assert(builder@.nodes =~= Seq::empty());
    assert(builder@.in_flight =~= Seq::empty());
    assert(builder@.edges =~= Seq::empty());
    let entry_index = match builder.discover(canonical, None) {
        Err(error) => return Err(error),
        Ok(index) => index,
    };
    let reached: usize = builder.nodes.len();
    let ghost found = builder@;
    let mut i: usize = 0;
    while i < 4
        invariant
            i <= 4,
            builder.resolver == resolver,
            builder.files == files,
            builder@.in_flight.len() == 0,
            reached <= builder.nodes@.len(),
            entry_index < reached,
            found.discover_prelude(resolver@, files@, prelude(), 0) == builder@.discover_prelude(
                resolver@,
                files@,
                prelude(),
                i as nat,
            ),
            modules_of(resolver@, files@, entry@) == (match found.discover_prelude(
                resolver@,
                files@,
                prelude(),
                0,
            ) {
                (_, Err(error)) => Err(error),
                (all, Ok(_)) => Ok::<Modules<'s>, ModuleError<Seq<char>>>(
                    Modules {
                        nodes: all.nodes,
                        edges: all.edges,
                        entry: entry_index,
                        reached: reached as nat,
                    },
                ),
            }),
        decreases 4 - i,
    {
        let path = joined_path(resolver.std_root(), prelude_name(i));
        match file_index(files, path.as_str()) {
            None => {},
            Some(file) => match builder.discover(files[file].canonical, None) {
                Err(error) => return Err(error),
                Ok(_) => {},
            },
        }
        i = i + 1;
    }
    Ok(
        ModuleGraph {
            nodes: builder.nodes,
            edges: builder.edges,
            entry: entry_index,
            reached,
        },
    )
}

/// Where a module goes in a list sorted by path: after all that do not come later.
pub open spec fn place_by_path(nodes: Seq<Node>, list: Seq<usize>, node: usize, end: nat) -> nat
    decreases end,
{
    if end == 0 || end > list.len() || !comes_before(
        nodes[node as int].path,
        nodes[list[end - 1] as int].path,
        0,
    ) {
        end
    } else {
        place_by_path(nodes, list, node, (end - 1) as nat)
    }
}

pub open spec fn insert_by_path(nodes: Seq<Node>, list: Seq<usize>, node: usize) -> Seq<usize> {
    list.insert(place_by_path(nodes, list, node, list.len()) as int, node)
}

impl<'s> Modules<'s> {
    /// The imports of a module among the edges from `at` on, sorted by path.
    pub open spec fn sorted_deps(self, node: usize, at: nat, deps: Seq<usize>) -> Seq<usize>
        decreases self.edges.len() - at,
    {
        if at >= self.edges.len() {
            deps
        } else {
            let (from, to) = self.edges[at as int];
            if from == node && to < self.nodes.len() {
                self.sorted_deps(node, at + 1, insert_by_path(self.nodes, deps, to))
            } else {
                self.sorted_deps(node, at + 1, deps)
            }
        }
    }

    /// The modules from `at` on, sorted by path.
    pub open spec fn sorted_nodes(self, at: nat, list: Seq<usize>) -> Seq<usize>
        decreases self.nodes.len() - at,
    {
        if at >= self.nodes.len() {
            list
        } else {
            self.sorted_nodes(at + 1, insert_by_path(self.nodes, list, at as usize))
        }
    }

    /// The modules in the order they are visited: the prelude by path, then those found from the
    /// entry on.
    pub open spec fn visit_order(self) -> Seq<usize> {
        self.sorted_nodes(self.reached, Seq::empty()) + Seq::new(self.reached, |i: int| i as usize)
    }

    /// The graph of imports, with the modules in the order they are visited.
    pub open spec fn visit_graph(self) -> Graph {
        let order = self.visit_order();
        Seq::new(order.len(), |i: int| self.visit_deps(order, order[i]))
    }

    pub open spec fn visit_deps(self, order: Seq<usize>, node: usize) -> Seq<usize> {
        places(order, self.sorted_deps(node, 0, Seq::empty()))
    }

    /// The modules in the order they are merged: each after all it imports, and the entry last.
    pub open spec fn merge_order(self) -> Result<Seq<usize>, ModuleError<Seq<char>>> {
        let order = self.visit_order();
        match sorted_graph(self.visit_graph()) {
            Ok(sorted) => Ok(
                moved_last(sorted.map_values(|place: usize| order[place as int]), self.entry),
            ),
            Err(place) => Err(
                ModuleError::CircularImport {
                    path: self.nodes[order[place as int] as int].path,
                    span: no_span(),
                },
            ),
        }
    }
}

/// The first place at or after `at` that holds the number.
pub open spec fn place_in(order: Seq<usize>, node: usize, at: nat) -> usize
    decreases order.len() - at,
{
    if at >= order.len() {
        order.len() as usize
    } else if order[at as int] == node {
        at as usize
    } else {
        place_in(order, node, at + 1)
    }
}

pub open spec fn places(order: Seq<usize>, nodes: Seq<usize>) -> Seq<usize> {
    nodes.map_values(|node: usize| place_in(order, node, 0))
}

/// The list without a number, and then the number.
pub open spec fn moved_last(list: Seq<usize>, node: usize) -> Seq<usize> {
    list.filter(other_than(node)).push(node)
}

pub open spec fn other_than(node: usize) -> spec_fn(usize) -> bool {
    |other: usize| other != node
}

fn insert_path(nodes: &Vec<ModuleNode>, list: &mut Vec<usize>, node: usize)
    requires
        node < nodes@.len(),
        forall|i: int| 0 <= i < old(list)@.len() ==> (#[trigger] old(list)@[i]) < nodes@.len(),
    ensures
        final(list)@ == insert_by_path(node_views(nodes@), old(list)@, node),
        forall|i: int| 0 <= i < final(list)@.len() ==> (#[trigger] final(list)@[i]) < nodes@.len(),
{
    let ghost views = node_views(nodes@);
    let mut end: usize = list.len();
    assert(views[node as int] == nodes@[node as int]@);
    while end > 0
        invariant
            end <= list@.len(),
            list@ == old(list)@,
            node < nodes@.len(),
            views == node_views(nodes@),
            views[node as int] == nodes@[node as int]@,
            forall|i: int| 0 <= i < list@.len() ==> (#[trigger] list@[i]) < nodes@.len(),
            place_by_path(views, list@, node, list@.len()) == place_by_path(
                views,
                list@,
                node,
                end as nat,
            ),
        ensures
            list@ == old(list)@,
            end <= list@.len(),
            place_by_path(views, list@, node, list@.len()) == end,
        decreases end,
    {
        let other: usize = list[end - 1];
        assert(views[other as int] == nodes@[other as int]@);
        if !path_before(nodes[node].path, nodes[other].path) {
            break;
        }
        end = end - 1;
    }
    list.insert(end, node);
}

fn find_place(order: &Vec<usize>, node: usize) -> (place: usize)
    ensures
        place == place_in(order@, node, 0),
{
    let mut i: usize = 0;
    while i < order.len()
        invariant
            i <= order@.len(),
            place_in(order@, node, 0) == place_in(order@, node, i as nat),
        decreases order@.len() - i,
    {
        if order[i] == node {
            return i;
        }
        i = i + 1;
    }
    order.len()
}

impl<'s> ModuleGraph<'s> {
    fn sorted_deps(&self, node: usize) -> (deps: Vec<usize>)
        ensures
            deps@ == self@.sorted_deps(node, 0, Seq::empty()),
    {
        let mut deps: Vec<usize> = Vec::new();
        let mut i: usize = 0;
        while i < self.edges.len()
            invariant
                i <= self.edges@.len(),
                self@.nodes.len() == self.nodes@.len(),
                forall|k: int| 0 <= k < deps@.len() ==> (#[trigger] deps@[k]) < self.nodes@.len(),
                self@.sorted_deps(node, 0, Seq::empty()) == self@.sorted_deps(
                    node,
                    i as nat,
                    deps@,
                ),
            decreases self.edges@.len() - i,
        {
            let (from, to) = self.edges[i];
            if from == node && to < self.nodes.len() {
                insert_path(&self.nodes, &mut deps, to);
            }
            i = i + 1;
        }
        deps
    }

    fn visit_order(&self) -> (order: Vec<usize>)
        ensures
            order@ == self@.visit_order(),
    {
        let mut order: Vec<usize> = Vec::new();
        let mut i: usize = self.reached;
        while i < self.nodes.len()
            invariant
                self@.nodes.len() == self.nodes@.len(),
                forall|k: int| 0 <= k < order@.len() ==> (#[trigger] order@[k]) < self.nodes@.len(),
                self@.sorted_nodes(self.reached as nat, Seq::empty()) == self@.sorted_nodes(
                    i as nat,
                    order@,
                ),
            decreases self.nodes@.len() - i,
        {
            insert_path(&self.nodes, &mut order, i);
            i = i + 1;
        }
        let ghost detached = order@;
        let mut j: usize = 0;
        while j < self.reached
            invariant
                j <= self.reached,
                order@ == detached + Seq::new(j as nat, |i: int| i as usize),
            decreases self.reached - j,
        {
            order.push(j);
            j = j + 1;
            assert(order@ =~= detached + Seq::new(j as nat, |i: int| i as usize));
        }
        order
    }

    /// The modules in the order they are merged: each after all it imports, and the entry last.
    pub fn all_nodes_order(&self) -> (outcome: Result<Vec<usize>, ModuleError<&'s str>>)
        requires
            self.reached <= self.nodes@.len(),
            self.entry < self.nodes@.len(),
        ensures
            (match outcome {
                Ok(order) => Ok(order@),
                Err(error) => Err(error@),
            }) == self@.merge_order(),
            match outcome {
                Ok(order) => forall|i: int|
                    0 <= i < order@.len() ==> (#[trigger] order@[i]) < self.nodes@.len(),
                Err(_) => true,
            },
    {
        let order = self.visit_order();
        let count: usize = self.nodes.len();
        let mut deps: Vec<Vec<usize>> = Vec::new();
        let mut i: usize = 0;
        while i < order.len()
            invariant
                i <= order@.len(),
                order@ == self@.visit_order(),
                deps@.len() == i,
                graph_of(deps@) == self@.visit_graph().take(i as int),
            decreases order@.len() - i,
        {
            let nodes = self.sorted_deps(order[i]);
            let mut list: Vec<usize> = Vec::new();
            let mut j: usize = 0;
            while j < nodes.len()
                invariant
                    j <= nodes@.len(),
                    list@ == places(order@, nodes@).take(j as int),
                decreases nodes@.len() - j,
            {
                list.push(find_place(&order, nodes[j]));
                j = j + 1;
                assert(list@ =~= places(order@, nodes@).take(j as int));
            }
            assert(list@ =~= self@.visit_deps(order@, order@[i as int]));
            deps.push(list);
            i = i + 1;
            assert(graph_of(deps@) =~= self@.visit_graph().take(i as int));
        }
        assert(self@.visit_graph().take(i as int) =~= self@.visit_graph());
        proof {
            lemma_visit_order(self@);
        }
        match topological_sort(&deps) {
            Err(place) => {
                proof {
                    lemma_cycle_bound(self@.visit_graph(), place);
                }
                let node: usize = order[place];
                assert(self@.nodes[node as int] == self.nodes@[node as int]@);
                Err(
                    ModuleError::CircularImport {
                        path: self.nodes[node].path,
                        span: Span::new(0, 0),
                    },
                )
            },
            Ok(sorted) => {
                let mut merged: Vec<usize> = Vec::new();
                let ghost mapped = sorted@.map_values(|place: usize| order@[place as int]);
                let ghost kept = other_than(self.entry);
                proof {
                    reveal(Seq::filter);
                    assert(mapped.take(0) =~= Seq::empty());
                }
                let mut k: usize = 0;
                while k < sorted.len()
                    invariant
                        k <= sorted@.len(),
                        order@ == self@.visit_order(),
                        is_dependency_order(self@.visit_graph(), sorted@),
                        mapped == sorted@.map_values(|place: usize| order@[place as int]),
                        kept == other_than(self.entry),
                        merged@ == mapped.take(k as int).filter(kept),
                        forall|i: int|
                            0 <= i < order@.len() ==> (#[trigger] order@[i]) < self.nodes@.len(),
                        forall|i: int|
                            0 <= i < merged@.len() ==> (#[trigger] merged@[i]) < self.nodes@.len(),
                    decreases sorted@.len() - k,
                {
                    assert(sorted@.contains(sorted@[k as int]));
                    let node: usize = order[sorted[k]];
                    proof {
                        reveal(Seq::filter);
                        assert(mapped.take(k + 1).drop_last() =~= mapped.take(k as int));
                        assert(mapped.take(k + 1).last() == node);
                    }
                    if node != self.entry {
                        merged.push(node);
                    }
                    k = k + 1;
                }
                assert(mapped.take(k as int) =~= mapped);
                merged.push(self.entry);
                Ok(merged)
            },
        }
    }
}

/// A node on a cycle is a node.
proof fn lemma_cycle_bound(graph: Graph, node: usize)
    requires
        crate::hir::topo::on_cycle(graph, node),
    ensures
        node < graph.len(),
{
    let path = choose|path: Seq<usize>|
        path.len() >= 2 && path[0] == node && path.last() == node && crate::hir::topo::is_path(
            graph,
            path,
        );
    assert(crate::hir::topo::depends(graph, path[0], path[1]));
}

proof fn lemma_sorted_nodes(modules: Modules, at: nat, list: Seq<usize>)
    requires
        list.no_duplicates(),
        forall|i: int| 0 <= i < list.len() ==> modules.reached <= #[trigger] list[i] < at,
        forall|node: usize| modules.reached <= node < at ==> list.contains(node),
        modules.reached <= at <= modules.nodes.len(),
        modules.nodes.len() <= usize::MAX,
    ensures
        ({
            let all = modules.sorted_nodes(at, list);
            &&& all.no_duplicates()
            &&& forall|i: int|
                0 <= i < all.len() ==> modules.reached <= #[trigger] all[i] < modules.nodes.len()
            &&& forall|node: usize|
                modules.reached <= node < modules.nodes.len() ==> all.contains(node)
        }),
    decreases modules.nodes.len() - at,
{
    if at < modules.nodes.len() {
        let node = at as usize;
        let place = place_by_path(modules.nodes, list, node, list.len()) as int;
        lemma_place_bound(modules.nodes, list, node, list.len());
        let next = list.insert(place, node);
        assert forall|i: int| 0 <= i < next.len() implies modules.reached <= #[trigger] next[i] < at
            + 1 by {
            if i < place {
                assert(next[i] == list[i]);
            } else if i > place {
                assert(next[i] == list[i - 1]);
            }
        }
        assert(next.no_duplicates()) by {
            assert forall|i: int, j: int| 0 <= i < next.len() && 0 <= j < next.len() && i
                != j implies next[i] != next[j] by {
                let a = if i < place {
                    i
                } else {
                    i - 1
                };
                let b = if j < place {
                    j
                } else {
                    j - 1
                };
                if i == place {
                    assert(next[j] == list[b]);
                } else if j == place {
                    assert(next[i] == list[a]);
                } else {
                    assert(next[i] == list[a] && next[j] == list[b]);
                }
            }
        }
        assert forall|other: usize| modules.reached <= other < at + 1 implies next.contains(
            other,
        ) by {
            if other == node {
                assert(next[place] == node);
            } else {
                assert(list.contains(other));
                let i = choose|i: int| 0 <= i < list.len() && list[i] == other;
                if i < place {
                    assert(next[i] == other);
                } else {
                    assert(next[i + 1] == other);
                }
            }
        }
        lemma_sorted_nodes(modules, at + 1, next);
    }
}

proof fn lemma_place_bound(nodes: Seq<Node>, list: Seq<usize>, node: usize, end: nat)
    requires
        end <= list.len(),
    ensures
        place_by_path(nodes, list, node, end) <= end,
    decreases end,
{
    if end > 0 {
        lemma_place_bound(nodes, list, node, (end - 1) as nat);
    }
}

/// Every module is visited once.
proof fn lemma_visit_order(modules: Modules)
    requires
        modules.reached <= modules.nodes.len() <= usize::MAX,
    ensures
        modules.visit_order().no_duplicates(),
        forall|i: int|
            0 <= i < modules.visit_order().len() ==> (#[trigger] modules.visit_order()[i])
                < modules.nodes.len(),
        forall|node: usize| node < modules.nodes.len() ==> modules.visit_order().contains(node),
{
    let detached = modules.sorted_nodes(modules.reached, Seq::empty());
    lemma_sorted_nodes(modules, modules.reached, Seq::empty());
    let order = modules.visit_order();
    assert forall|i: int| 0 <= i < order.len() implies (#[trigger] order[i])
        < modules.nodes.len() by {
        if i < detached.len() {
            assert(order[i] == detached[i]);
        }
    }
    assert forall|i: int, j: int| 0 <= i < order.len() && 0 <= j < order.len() && i
        != j implies order[i] != order[j] by {
        if i < detached.len() {
            assert(order[i] == detached[i]);
        }
        if j < detached.len() {
            assert(order[j] == detached[j]);
        }
    }
    assert forall|node: usize| node < modules.nodes.len() implies order.contains(node) by {
        if node < modules.reached {
            assert(order[detached.len() + node as int] == node);
        } else {
            assert(detached.contains(node));
            let i = choose|i: int| 0 <= i < detached.len() && detached[i] == node;
            assert(order[i] == node);
        }
    }
}

/// Whether one number of a list comes before another.
pub open spec fn precedes(list: Seq<usize>, a: usize, b: usize) -> bool {
    exists|i: int, j: int|
        0 <= i < j < list.len() && #[trigger] list[i] == a && #[trigger] list[j] == b
}

proof fn lemma_filter_keeps(list: Seq<usize>, node: usize, i: int)
    requires
        0 <= i < list.len(),
        list[i] != node,
    ensures
        exists|x: int|
            0 <= x < list.filter(other_than(node)).len() && #[trigger] list.filter(
                other_than(node),
            )[x] == list[i],
    decreases list.len(),
{
    reveal(Seq::filter);
    let kept = list.filter(other_than(node));
    let rest = list.drop_last().filter(other_than(node));
    if i == list.len() - 1 {
        assert(kept[kept.len() - 1] == list[i]);
    } else {
        lemma_filter_keeps(list.drop_last(), node, i);
        let x = choose|x: int| 0 <= x < rest.len() && #[trigger] rest[x] == list[i];
        assert(kept[x] == list[i]);
    }
}

/// Taking a number out of a list leaves the others in order.
proof fn lemma_filter_order(list: Seq<usize>, node: usize, i: int, j: int)
    requires
        0 <= i < j < list.len(),
        list[i] != node,
        list[j] != node,
    ensures
        precedes(list.filter(other_than(node)), list[i], list[j]),
    decreases list.len(),
{
    reveal(Seq::filter);
    let kept = list.filter(other_than(node));
    let rest = list.drop_last().filter(other_than(node));
    if j == list.len() - 1 {
        lemma_filter_keeps(list.drop_last(), node, i);
        let x = choose|x: int| 0 <= x < rest.len() && #[trigger] rest[x] == list[i];
        assert(kept[x] == list[i]);
        assert(kept[kept.len() - 1] == list[j]);
    } else {
        lemma_filter_order(list.drop_last(), node, i, j);
        let (x, y) = choose|x: int, y: int|
            0 <= x < y < rest.len() && #[trigger] rest[x] == list[i] && #[trigger] rest[y]
                == list[j];
        assert(kept[x] == list[i]);
        assert(kept[y] == list[j]);
    }
}

proof fn lemma_place_in(order: Seq<usize>, node: usize, at: nat)
    requires
        order.len() <= usize::MAX,
        exists|i: int| at <= i < order.len() && #[trigger] order[i] == node,
    ensures
        place_in(order, node, at) < order.len(),
        order[place_in(order, node, at) as int] == node,
    decreases order.len() - at,
{
    if at < order.len() && order[at as int] != node {
        let i = choose|i: int| at <= i < order.len() && #[trigger] order[i] == node;
        assert(at + 1 <= i);
        lemma_place_in(order, node, at + 1);
    }
}

proof fn lemma_insert_contains(nodes: Seq<Node>, list: Seq<usize>, node: usize, other: usize)
    requires
        list.contains(other) || other == node,
    ensures
        insert_by_path(nodes, list, node).contains(other),
{
    let place = place_by_path(nodes, list, node, list.len()) as int;
    lemma_place_bound(nodes, list, node, list.len());
    let next = list.insert(place, node);
    if other == node {
        assert(next[place] == node);
    } else {
        let i = choose|i: int| 0 <= i < list.len() && list[i] == other;
        if i < place {
            assert(next[i] == other);
        } else {
            assert(next[i + 1] == other);
        }
    }
}

/// The sorted imports of a module hold each module it imports.
proof fn lemma_sorted_deps(modules: Modules, node: usize, at: nat, deps: Seq<usize>, to: usize)
    requires
        to < modules.nodes.len(),
        deps.contains(to) || exists|i: int|
            at <= i < modules.edges.len() && #[trigger] modules.edges[i] == (node, to),
    ensures
        modules.sorted_deps(node, at, deps).contains(to),
    decreases modules.edges.len() - at,
{
    if at < modules.edges.len() {
        let (from, target) = modules.edges[at as int];
        if from == node && target < modules.nodes.len() {
            let next = insert_by_path(modules.nodes, deps, target);
            if deps.contains(to) || target == to {
                lemma_insert_contains(modules.nodes, deps, target, to);
            } else {
                let i = choose|i: int|
                    at <= i < modules.edges.len() && #[trigger] modules.edges[i] == (node, to);
                assert(at + 1 <= i);
            }
            lemma_sorted_deps(modules, node, at + 1, next, to);
        } else {
            if !deps.contains(to) {
                let i = choose|i: int|
                    at <= i < modules.edges.len() && #[trigger] modules.edges[i] == (node, to);
                assert(at + 1 <= i);
            }
            lemma_sorted_deps(modules, node, at + 1, deps, to);
        }
    }
}

/// Modules are merged in dependency-first order, the entry last: every module is merged, and
/// after each module that it imports, unless it imports the entry.
pub proof fn lemma_merge_order(modules: Modules, from: usize, to: usize)
    requires
        modules.reached <= modules.nodes.len() <= usize::MAX,
        modules.entry < modules.nodes.len(),
        modules.merge_order() is Ok,
    ensures
        ({
            let order = modules.merge_order()->Ok_0;
            &&& order.len() > 0 && order.last() == modules.entry
            &&& from < modules.nodes.len() ==> order.contains(from)
            &&& from < modules.nodes.len() && to < modules.nodes.len() && to != modules.entry
                && modules.edges.contains((from, to)) ==> precedes(order, to, from)
        }),
{
    let order = modules.visit_order();
    let graph = modules.visit_graph();
    let merged = modules.merge_order()->Ok_0;
    let sorted = sorted_graph(graph)->Ok_0;
    let mapped = sorted.map_values(|place: usize| order[place as int]);
    let kept = mapped.filter(other_than(modules.entry));
    lemma_visit_order(modules);
    lemma_visit_count(modules);
    crate::hir::topo::lemma_sorted_graph(graph);
    if from < modules.nodes.len() {
        let p = place_in(order, from, 0);
        assert(order.contains(from));
        lemma_place_in(order, from, 0);
        assert(sorted.contains(p));
        let i = choose|i: int| 0 <= i < sorted.len() && sorted[i] == p;
        assert(mapped[i] == from);
        if from == modules.entry {
            assert(merged[merged.len() - 1] == from);
        } else {
            lemma_filter_keeps(mapped, modules.entry, i);
            let x = choose|x: int| 0 <= x < kept.len() && #[trigger] kept[x] == from;
            assert(merged[x] == from);
        }
        if to < modules.nodes.len() && to != modules.entry && modules.edges.contains((from, to)) {
            let e = choose|e: int| 0 <= e < modules.edges.len() && modules.edges[e] == (from, to);
            assert(modules.edges[e] == (from, to));
            lemma_sorted_deps(modules, from, 0, Seq::empty(), to);
            let deps = modules.sorted_deps(from, 0, Seq::empty());
            let q = place_in(order, to, 0);
            assert(order.contains(to));
            lemma_place_in(order, to, 0);
            let d = choose|d: int| 0 <= d < deps.len() && deps[d] == to;
            assert(places(order, deps)[d] == q);
            assert(graph[p as int] == places(order, deps));
            assert(crate::hir::topo::depends(graph, sorted[i], q));
            assert(sorted.take(i).contains(q));
            let j = choose|j: int| 0 <= j < sorted.take(i).len() && sorted.take(i)[j] == q;
            assert(sorted[j] == q);
            assert(mapped[j] == to);
            if from == modules.entry {
                lemma_filter_keeps(mapped, modules.entry, j);
                let x = choose|x: int| 0 <= x < kept.len() && #[trigger] kept[x] == to;
                assert(merged[x] == to);
                assert(merged[merged.len() - 1] == from);
            } else {
                lemma_filter_order(mapped, modules.entry, j, i);
                let (x, y) = choose|x: int, y: int|
                    0 <= x < y < kept.len() && #[trigger] kept[x] == to && #[trigger] kept[y]
                        == from;
                assert(merged[x] == to);
                assert(merged[y] == from);
            }
        }
    }
}

/// There are as many visits as modules, at most.
proof fn lemma_visit_count(modules: Modules)
    requires
        modules.reached <= modules.nodes.len() <= usize::MAX,
    ensures
        modules.visit_order().len() <= usize::MAX,
{
    lemma_visit_order(modules);
    let order = modules.visit_order();
    let all = Seq::new(modules.nodes.len(), |i: int| i as usize);
    order.unique_seq_to_set();
    all.lemma_cardinality_of_set();
    assert(order.to_set().subset_of(all.to_set())) by {
        assert forall|node: usize| order.to_set().contains(node) implies all.to_set().contains(
            node,
        ) by {
            let i = choose|i: int| 0 <= i < order.len() && order[i] == node;
            assert(order[i] < modules.nodes.len());
            assert(all[node as int] == node);
        }
    }
    vstd::set_lib::lemma_len_subset(order.to_set(), all.to_set());
}

} // verus!
