//! What imports mean: the file a path stands for, the names a module exports, and the modules that
//! an import links.

use crate::ast::{ItemKind, Span, Spanned, Statement, UseDecl};
use crate::module::error::ModuleError;
use crate::module::graph::{
    exported, exports_from, find_canonical, find_file, flight_ok, lemma_flight_push, missing_item,
    node_at, Discovery, ModuleFile,
};
use crate::module::paths::join_path;
use crate::module::resolver::{directories, segment_views, Roots};
use vstd::prelude::*;

verus! {

/// The path through `parts` from a directory, the last one at the end.
pub open spec fn below(base: Seq<char>, parts: Seq<Seq<char>>) -> Seq<char>
    decreases parts.len(),
{
    if parts.len() == 0 {
        base
    } else {
        join_path(below(base, parts.drop_last()), parts.last())
    }
}

proof fn lemma_below_front(base: Seq<char>, parts: Seq<Seq<char>>)
    requires
        parts.len() > 0,
    ensures
        below(base, parts) == below(join_path(base, parts[0]), parts.skip(1)),
    decreases parts.len(),
{
    if parts.len() == 1 {
        assert(parts.drop_last() =~= Seq::empty());
        assert(parts.skip(1) =~= Seq::empty());
        assert(below(base, parts.drop_last()) == base);
        assert(below(base, parts) == join_path(base, parts[0]));
    } else {
        lemma_below_front(base, parts.drop_last());
        assert(parts.drop_last()[0] == parts[0]);
        assert(parts.skip(1).last() == parts.last());
        assert(parts.drop_last().skip(1) =~= parts.skip(1).drop_last());
    }
}

proof fn lemma_directories(base: Seq<char>, segments: Seq<Seq<char>>, at: nat)
    requires
        at < segments.len(),
    ensures
        directories(base, segments, at) == below(
            base,
            segments.subrange(at as int, segments.len() - 1),
        ),
    decreases segments.len() - at,
{
    let parts = segments.subrange(at as int, segments.len() - 1);
    if at + 1 < segments.len() {
        lemma_directories(join_path(base, segments[at as int]), segments, at + 1);
        lemma_below_front(base, parts);
        assert(parts.skip(1) =~= segments.subrange(at as int + 1, segments.len() - 1));
    }
}

/// The file that an import path stands for: below the directory of the project where the path starts
/// with its name, and below that of the standard library where it starts with `std`, through every
/// segment in its order, the last one with the ending of a module. Every other path is an error.
pub proof fn lemma_resolved_path(roots: Roots, segments: Seq<Seq<char>>, span: Span)
    ensures
        ({
            let file = |base: Seq<char>|
                join_path(
                    below(base, segments.subrange(1, segments.len() - 1)),
                    segments.last() + ".nyx"@,
                );
            let found = roots.resolve(segments, span);
            if segments.len() <= 1 {
                found is Err && found->Err_0 is EmptyPath
            } else if segments[0] == roots.name {
                found == Result::<Seq<char>, ModuleError<Seq<char>>>::Ok(file(roots.root))
            } else if segments[0] == "std"@ {
                found == Result::<Seq<char>, ModuleError<Seq<char>>>::Ok(file(roots.std))
            } else {
                found == Result::<Seq<char>, ModuleError<Seq<char>>>::Err(
                    ModuleError::UnknownRoot { name: segments[0], span },
                )
            }
        }),
{
    if segments.len() > 1 {
        lemma_directories(roots.root, segments, 1);
        lemma_directories(roots.std, segments, 1);
    }
}

/// Whether a statement declares a public item of a name.
pub open spec fn makes_public<'s>(statement: Statement<'s>, name: Seq<char>) -> bool {
    match statement {
        Statement::Item(item) => match item.kind {
            ItemKind::Fn(item) => item.is_pub && item.name@ == name,
            ItemKind::Struct(item) => item.is_pub && item.name@ == name,
            ItemKind::Enum(item) => item.is_pub && item.name@ == name,
            ItemKind::Interface(item) => item.is_pub && item.name@ == name,
            ItemKind::Const(item) => item.is_pub && item.name@ == name,
            ItemKind::Impl(_) | ItemKind::Use(_) => false,
        },
        _ => false,
    }
}

proof fn lemma_exported<'s>(
    statements: Seq<Statement<'s>>,
    at: nat,
    names: Seq<&'s str>,
    name: Seq<char>,
)
    ensures
        segment_views(exports_from(statements, at, names)).contains(name) <==> segment_views(
            names,
        ).contains(name) || exists|i: int|
            at <= i < statements.len() && makes_public(#[trigger] statements[i], name),
    decreases statements.len() - at,
{
    if at < statements.len() {
        let more = match exported(statements[at as int]) {
            Some(name) => names.push(name),
            None => names,
        };
        lemma_exported(statements, at + 1, more, name);
        let own = makes_public(statements[at as int], name);
        assert(segment_views(more).contains(name) <==> segment_views(names).contains(name) || own)
            by {
            if let Some(other) = exported(statements[at as int]) {
                assert(segment_views(more) =~= segment_views(names).push(other@));
                let views = segment_views(names);
                assert(views.push(other@)[views.len() as int] == other@);
                if views.contains(name) {
                    let i = choose|i: int| 0 <= i < views.len() && views[i] == name;
                    assert(views.push(other@)[i] == name);
                }
                if views.push(other@).contains(name) {
                    let i = choose|i: int|
                        0 <= i <= views.len() && views.push(other@)[i] == name;
                    if i < views.len() {
                        assert(views[i] == name);
                    }
                }
            }
        }
    }
}

/// A module exports the names of its public items, and no others.
pub proof fn lemma_exports<'s>(statements: Seq<Statement<'s>>, name: Seq<char>)
    ensures
        segment_views(exports_from(statements, 0, Seq::empty())).contains(name) <==> exists|i: int|
            0 <= i < statements.len() && makes_public(#[trigger] statements[i], name),
{
    lemma_exported(statements, 0, Seq::empty(), name);
    assert(segment_views(Seq::empty()) =~= Seq::empty());
}

/// What an import by name lacks: the first of its items that is not exported.
pub proof fn lemma_missing<'s>(exports: Seq<Seq<char>>, items: Seq<Spanned<&'s str>>, at: nat)
    ensures
        match missing_item(exports, items, at) {
            None => forall|i: int|
                at <= i < items.len() ==> exports.contains((#[trigger] items[i]).value@),
            Some(item) => exists|k: int| {
                &&& at <= k < items.len()
                &&& #[trigger] items[k] == item
                &&& !exports.contains(item.value@)
                &&& forall|i: int|
                    at <= i < k ==> exports.contains((#[trigger] items[i]).value@)
            },
        },
    decreases items.len() - at,
{
    if at < items.len() {
        let next = items[at as int];
        if exports.contains(next.value@) {
            lemma_missing(exports, items, at + 1);
            if let Some(item) = missing_item(exports, items, at + 1) {
                let k = choose|k: int| {
                    &&& at + 1 <= k < items.len()
                    &&& #[trigger] items[k] == item
                    &&& !exports.contains(item.value@)
                    &&& forall|i: int|
                        at + 1 <= i < k ==> exports.contains((#[trigger] items[i]).value@)
                };
                assert(items[k] == item);
            }
        } else {
            assert(items[at as int] == next);
        }
    }
}

/// The file of a path is one that is asked for by it, or that it stands for.
pub proof fn lemma_file_found<'s>(files: Seq<ModuleFile<'s>>, path: Seq<char>, at: nat)
    ensures
        match find_file(files, path, at) {
            Some(k) => at <= k < files.len() && (files[k as int].path@ == path
                || files[k as int].canonical@ == path),
            None => forall|i: int|
                at <= i < files.len() ==> (#[trigger] files[i]).path@ != path
                    && files[i].canonical@ != path,
        },
    decreases files.len() - at,
{
    if at < files.len() {
        lemma_file_found(files, path, at + 1);
    }
}

/// An import of a file that is there ends well only where its module was found, an edge leads to it
/// from the importing module, and it exports every item that is imported by name. A path to no file
/// changes nothing.
pub proof fn lemma_import<'s>(
    discovery: Discovery<'s>,
    roots: Roots,
    files: Seq<ModuleFile<'s>>,
    index: usize,
    declaration: UseDecl<'s>,
)
    requires
        discovery.import(roots, files, index, declaration).1 is Ok,
    ensures
        ({
            let after = discovery.import(roots, files, index, declaration).0;
            match roots.resolve(segment_views(declaration.path@), declaration.span) {
                Err(_) => false,
                Ok(path) => match find_file(files, path, 0) {
                    None => after == discovery,
                    Some(k) => {
                        let canonical = files[k as int].canonical@;
                        let found = discovery.discover(
                            roots,
                            files,
                            canonical,
                            Some(declaration.span),
                        );
                        match found.1 {
                            Err(_) => false,
                            Ok(node) => {
                                &&& after.nodes == found.0.nodes
                                &&& after.edges == found.0.edges.push((index, node))
                                &&& forall|i: int|
                                    0 <= i < declaration.items@.len()
                                        ==> after.nodes[node as int].exports.contains(
                                        (#[trigger] declaration.items@[i]).value@,
                                    )
                            },
                        }
                    },
                },
            }
        }),
{
    if let Ok(path) = roots.resolve(segment_views(declaration.path@), declaration.span) {
        if let Some(k) = find_file(files, path, 0) {
            let canonical = files[k as int].canonical@;
            if let (next, Ok(node)) = discovery.discover(
                roots,
                files,
                canonical,
                Some(declaration.span),
            ) {
                lemma_missing(next.nodes[node as int].exports, declaration.items@, 0);
            }
        }
    }
}

/// A module whose imports are being followed cannot be imported again: that would go in a circle.
/// One that was found before is not entered twice.
pub proof fn lemma_found_once<'s>(
    discovery: Discovery<'s>,
    roots: Roots,
    files: Seq<ModuleFile<'s>>,
    canonical: Seq<char>,
    by: Option<Span>,
)
    ensures
        discovery.in_flight.contains(canonical) ==> discovery.discover(roots, files, canonical, by).1
            is Err && discovery.discover(roots, files, canonical, by).1->Err_0 is CircularImport,
        !discovery.in_flight.contains(canonical) && (exists|i: int|
            0 <= i < discovery.nodes.len() && (#[trigger] discovery.nodes[i]).path == canonical) ==> {
            let (after, outcome) = discovery.discover(roots, files, canonical, by);
            &&& after == discovery
            &&& outcome is Ok
            &&& discovery.nodes.len() <= usize::MAX ==> discovery.nodes[outcome->Ok_0 as int].path
                == canonical
        },
{
    lemma_node_at(discovery, canonical, 0);
}

proof fn lemma_node_at<'s>(discovery: Discovery<'s>, path: Seq<char>, at: nat)
    ensures
        match node_at(discovery.nodes, path, at) {
            Some(k) => at <= k < discovery.nodes.len() && discovery.nodes[k as int].path == path,
            None => forall|i: int|
                at <= i < discovery.nodes.len() ==> (#[trigger] discovery.nodes[i]).path != path,
        },
    decreases discovery.nodes.len() - at,
{
    if at < discovery.nodes.len() {
        lemma_node_at(discovery, path, at + 1);
    }
}

/// Modules that were found keep their numbers, and edges stay.
pub open spec fn only_adds<'s>(before: Discovery<'s>, after: Discovery<'s>) -> bool {
    &&& before.nodes.len() <= after.nodes.len()
    &&& forall|i: int|
        0 <= i < before.nodes.len() ==> #[trigger] after.nodes[i] == before.nodes[i]
    &&& forall|edge: (usize, usize)|
        before.edges.contains(edge) ==> #[trigger] after.edges.contains(edge)
}

/// Whether an import was followed: its path leads to no file, or an edge leads from the importing
/// module to the module of that file, and that exports every item that is imported by name.
pub open spec fn is_followed<'s>(
    found: Discovery<'s>,
    roots: Roots,
    files: Seq<ModuleFile<'s>>,
    index: usize,
    declaration: UseDecl<'s>,
) -> bool {
    match roots.resolve(segment_views(declaration.path@), declaration.span) {
        Err(_) => false,
        Ok(path) => match find_file(files, path, 0) {
            None => true,
            Some(k) => found.nodes.len() <= usize::MAX ==> exists|node: usize| {
                &&& #[trigger] found.edges.contains((index, node))
                &&& node < found.nodes.len()
                &&& found.nodes[node as int].path == files[k as int].canonical@
                &&& forall|i: int|
                    0 <= i < declaration.items@.len() ==> found.nodes[node as int].exports.contains(
                        (#[trigger] declaration.items@[i]).value@,
                    )
            },
        },
    }
}

proof fn lemma_followed_more<'s>(
    before: Discovery<'s>,
    after: Discovery<'s>,
    roots: Roots,
    files: Seq<ModuleFile<'s>>,
    index: usize,
    declaration: UseDecl<'s>,
)
    requires
        only_adds(before, after),
        is_followed(before, roots, files, index, declaration),
    ensures
        is_followed(after, roots, files, index, declaration),
{
    if let Ok(path) = roots.resolve(segment_views(declaration.path@), declaration.span) {
        if let Some(k) = find_file(files, path, 0) {
            if after.nodes.len() <= usize::MAX {
                let node = choose|node: usize| {
                    &&& #[trigger] before.edges.contains((index, node))
                    &&& node < before.nodes.len()
                    &&& before.nodes[node as int].path == files[k as int].canonical@
                    &&& forall|i: int|
                        0 <= i < declaration.items@.len()
                            ==> before.nodes[node as int].exports.contains(
                            (#[trigger] declaration.items@[i]).value@,
                        )
                };
                assert(after.edges.contains((index, node)));
                assert(after.nodes[node as int] == before.nodes[node as int]);
            }
        }
    }
}

/// Whether a module was found under a number: it has the path.
spec fn is_found<'s>(found: Discovery<'s>, number: usize, path: Seq<char>) -> bool {
    found.nodes.len() <= usize::MAX ==> number < found.nodes.len() && found.nodes[number as int].path
        == path
}

proof fn lemma_discover<'s>(
    discovery: Discovery<'s>,
    roots: Roots,
    files: Seq<ModuleFile<'s>>,
    canonical: Seq<char>,
    by: Option<Span>,
)
    requires
        flight_ok(files, discovery.in_flight),
    ensures
        ({
            let (after, outcome) = discovery.discover(roots, files, canonical, by);
            outcome matches Ok(number) ==> only_adds(discovery, after) && after.in_flight
                == discovery.in_flight && is_found(after, number, canonical)
        }),
    decreases files.len() - discovery.in_flight.len(), 2nat, 0nat,
{
    if !discovery.in_flight.contains(canonical) {
        lemma_node_at(discovery, canonical, 0);
        if node_at(discovery.nodes, canonical, 0) is None {
            if let Some(file) = find_canonical(files, canonical, 0) {
                lemma_flight_push(files, discovery.in_flight, canonical);
                let statements = files[file as int].statements@;
                let index = discovery.nodes.len() as usize;
                let node = crate::module::graph::Node {
                    path: canonical,
                    statements,
                    exports: segment_views(exports_from(statements, 0, Seq::empty())),
                    in_std: crate::module::paths::is_within(canonical, roots.std),
                };
                let entered = Discovery {
                    nodes: discovery.nodes.push(node),
                    in_flight: discovery.in_flight.push(canonical),
                    ..discovery
                };
                lemma_imports(
                    entered,
                    roots,
                    files,
                    index,
                    statements,
                    0,
                    discovery.in_flight,
                );
                let (last, outcome) = entered.imports(
                    roots,
                    files,
                    index,
                    statements,
                    0,
                    discovery.in_flight,
                );
                if outcome is Ok {
                    assert(entered.nodes[discovery.nodes.len() as int] == node);
                    assert(last.nodes[discovery.nodes.len() as int] == node);
                    let after = discovery.discover(roots, files, canonical, by).0;
                    assert(after.nodes == last.nodes && after.edges == last.edges);
                    assert forall|i: int| 0 <= i < discovery.nodes.len() implies (
                    #[trigger] after.nodes[i]) == discovery.nodes[i] by {
                        assert(entered.nodes[i] == discovery.nodes[i]);
                    }
                    assert forall|edge: (usize, usize)|
                        discovery.edges.contains(edge) implies #[trigger] after.edges.contains(
                        edge,
                    ) by {
                        assert(entered.edges.contains(edge));
                    }
                }
            }
        }
    }
}

/// All imports of a module are followed, from the statement at `at` on: none is passed over, whatever
/// stands between them.
pub proof fn lemma_imports<'s>(
    discovery: Discovery<'s>,
    roots: Roots,
    files: Seq<ModuleFile<'s>>,
    index: usize,
    statements: Seq<Statement<'s>>,
    at: nat,
    outer: Seq<Seq<char>>,
)
    requires
        flight_ok(files, discovery.in_flight),
        discovery.in_flight.len() == outer.len() + 1,
        outer.len() < files.len(),
    ensures
        ({
            let (after, outcome) = discovery.imports(roots, files, index, statements, at, outer);
            outcome is Ok ==> {
                &&& only_adds(discovery, after)
                &&& after.in_flight == discovery.in_flight
                &&& forall|i: int|
                    at <= i < statements.len() ==> match (#[trigger] statements[i]) {
                        Statement::Item(item) => match item.kind {
                            ItemKind::Use(declaration) => is_followed(
                                after,
                                roots,
                                files,
                                index,
                                *declaration,
                            ),
                            _ => true,
                        },
                        _ => true,
                    }
            }
        }),
    decreases files.len() - outer.len(), 0nat, statements.len() - at,
{
    if at < statements.len() {
        let (after, outcome) = discovery.imports(roots, files, index, statements, at, outer);
        match statements[at as int] {
            Statement::Item(item) => match item.kind {
                ItemKind::Use(declaration) => {
                    if let (next, Ok(_)) = discovery.import(roots, files, index, *declaration) {
                        if let Ok(path) = roots.resolve(
                            segment_views(declaration.path@),
                            declaration.span,
                        ) {
                            if let Some(k) = find_file(files, path, 0) {
                                let canonical = files[k as int].canonical@;
                                let by = Some(declaration.span);
                                lemma_discover(discovery, roots, files, canonical, by);
                                let (found, number) = discovery.discover(
                                    roots,
                                    files,
                                    canonical,
                                    by,
                                );
                                let node = number->Ok_0;
                                lemma_import(discovery, roots, files, index, *declaration);
                                assert(next.edges[found.edges.len() as int] == (index, node));
                                assert(next.edges.contains((index, node)));
                                assert forall|edge: (usize, usize)|
                                    found.edges.contains(edge) implies #[trigger] next.edges.contains(
                                    edge,
                                ) by {
                                    let i = choose|i: int|
                                        0 <= i < found.edges.len() && found.edges[i] == edge;
                                    assert(next.edges[i] == edge);
                                }
                                assert(only_adds(discovery, next));
                            }
                        }
                        assert(is_followed(next, roots, files, index, *declaration));
                        lemma_imports(next, roots, files, index, statements, at + 1, outer);
                        if outcome is Ok {
                            lemma_followed_more(next, after, roots, files, index, *declaration);
                        }
                    }
                },
                _ => {
                    lemma_imports(discovery, roots, files, index, statements, at + 1, outer);
                },
            },
            _ => {
                lemma_imports(discovery, roots, files, index, statements, at + 1, outer);
            },
        }
    }
}

} // verus!
