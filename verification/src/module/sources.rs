//! The files that a program is made of: which one to look for next, from what was found so far.

use crate::arena::Arena;
use crate::ast::{ItemKind, Statement};
use crate::module::graph::{
    canonical_index, file_index, find_canonical, find_file, lemma_find_canonical, prelude,
    prelude_name, ModuleFile, PRELUDE_FILES,
};
use crate::module::paths::{join_path, joined_path};
use crate::module::resolver::{segment_views, ModuleResolver, Roots};
use crate::text::text_eq;
use vstd::prelude::*;

verus! {

/// The path that a statement imports from, if it is an import and its path leads below a root.
pub open spec fn import_path<'s>(roots: Roots, statement: Statement<'s>) -> Option<Seq<char>> {
    match statement {
        Statement::Item(item) => match item.kind {
            ItemKind::Use(declaration) => match roots.resolve(
                segment_views(declaration.path@),
                declaration.span,
            ) {
                Ok(path) => Some(path),
                Err(_) => None,
            },
            _ => None,
        },
        _ => None,
    }
}

/// The paths that statements from `at` on import from, the first one last.
pub open spec fn import_paths<'s>(roots: Roots, statements: Seq<Statement<'s>>, at: nat) -> Seq<
    Seq<char>,
>
    decreases statements.len() - at,
{
    if at >= statements.len() {
        Seq::empty()
    } else {
        let later = import_paths(roots, statements, at + 1);
        match import_path(roots, statements[at as int]) {
            Some(path) => later.push(path),
            None => later,
        }
    }
}

/// The paths of the prelude, the first one last.
pub open spec fn prelude_paths(roots: Roots) -> Seq<Seq<char>> {
    Seq::new(
        PRELUDE_FILES as nat,
        |i: int| join_path(roots.std, prelude()[PRELUDE_FILES - 1 - i]),
    )
}

/// How far the search is: the files that were read, the paths that lead to none, and the paths
/// still to look at, the next one last.
pub ghost struct Search<'s> {
    pub files: Seq<ModuleFile<'s>>,
    pub absent: Seq<Seq<char>>,
    pub waiting: Seq<Seq<char>>,
}

impl<'s> Search<'s> {
    /// Whether it is known where a path leads.
    pub open spec fn knows(self, path: Seq<char>) -> bool {
        find_file(self.files, path, 0) is Some || self.absent.contains(path)
    }

    /// Whether a path is known or going to be looked at.
    pub open spec fn covers(self, path: Seq<char>) -> bool {
        self.knows(path) || self.waiting.contains(path)
    }

    /// Whether nothing is forgotten: neither the entry, nor a file of the prelude, nor an import
    /// of a file that was read.
    pub open spec fn complete(self, roots: Roots, entry: Seq<char>) -> bool {
        &&& self.covers(entry)
        &&& forall|i: int|
            0 <= i < PRELUDE_FILES ==> self.covers(#[trigger] join_path(roots.std, prelude()[i]))
        &&& forall|i: int, j: int|
            0 <= i < self.files.len() && 0 <= j < self.files[i].statements@.len() ==> match (
            #[trigger] import_path(roots, self.files[i].statements@[j])) {
                Some(path) => self.covers(path),
                None => true,
            }
    }

    /// The search past the waiting paths that are known already.
    pub open spec fn skip(self) -> Search<'s>
        decreases self.waiting.len(),
    {
        if self.waiting.len() == 0 || !self.knows(self.waiting.last()) {
            self
        } else {
            Search { waiting: self.waiting.drop_last(), ..self }.skip()
        }
    }

    /// The search after its next path was found to lead to a file with the given statements, and
    /// `imports` are waiting on its account.
    pub open spec fn finds(
        self,
        after: Search<'s>,
        canonical: Seq<char>,
        statements: &'s Vec<Statement<'s>>,
        imports: Seq<Seq<char>>,
    ) -> bool {
        let file = after.files.last();
        &&& after.files == self.files.push(file)
        &&& file.path@ == self.waiting.last()
        &&& file.canonical@ == canonical
        &&& file.statements == statements
        &&& after.absent == self.absent
        &&& after.waiting == self.waiting.drop_last() + imports
    }
}

/// When nothing is left to look at, an import leads to a file that was read, or to none at all.
pub proof fn lemma_imports_found<'s>(
    search: Search<'s>,
    roots: Roots,
    entry: Seq<char>,
    file: int,
    statement: int,
    path: Seq<char>,
)
    requires
        search.complete(roots, entry),
        search.waiting.len() == 0,
        0 <= file < search.files.len(),
        0 <= statement < search.files[file].statements@.len(),
        import_path(roots, search.files[file].statements@[statement]) == Some(path),
    ensures
        find_file(search.files, path, 0) is Some || search.absent.contains(path),
{
}

proof fn lemma_find_file(files: Seq<ModuleFile>, path: Seq<char>, at: nat)
    ensures
        match find_file(files, path, at) {
            Some(index) => at <= index < files.len() && (files[index as int].path@ == path
                || files[index as int].canonical@ == path),
            None => forall|i: int|
                at <= i < files.len() ==> (#[trigger] files[i]).path@ != path
                    && files[i].canonical@ != path,
        },
    decreases files.len() - at,
{
    if at < files.len() {
        lemma_find_file(files, path, at + 1);
    }
}

/// What was known stays known when a file is added, and its path is known.
proof fn lemma_file_added<'s>(before: Search<'s>, after: Search<'s>, path: Seq<char>)
    requires
        after.files.len() == before.files.len() + 1,
        after.files.drop_last() == before.files,
        after.absent == before.absent,
        before.knows(path) || after.files.last().path@ == path,
    ensures
        after.knows(path),
{
    lemma_find_file(before.files, path, 0);
    lemma_find_file(after.files, path, 0);
    if let Some(index) = find_file(before.files, path, 0) {
        assert(after.files[index as int] == after.files.drop_last()[index as int]);
    }
}

/// A path that waited is either the next one or waits still.
proof fn lemma_waited(waiting: Seq<Seq<char>>, path: Seq<char>)
    requires
        waiting.contains(path),
    ensures
        waiting.len() > 0,
        path == waiting.last() || waiting.drop_last().contains(path),
{
    let i = choose|i: int| 0 <= i < waiting.len() && waiting[i] == path;
    if i < waiting.len() - 1 {
        assert(waiting.drop_last()[i] == path);
    }
}

proof fn lemma_skip<'s>(search: Search<'s>, roots: Roots, entry: Seq<char>)
    requires
        search.complete(roots, entry),
    ensures
        search.skip().complete(roots, entry),
    decreases search.waiting.len(),
{
    if search.waiting.len() > 0 && search.knows(search.waiting.last()) {
        let next = Search { waiting: search.waiting.drop_last(), ..search };
        assert forall|path: Seq<char>| search.covers(path) implies #[trigger] next.covers(path) by {
            if search.waiting.contains(path) {
                lemma_waited(search.waiting, path);
            }
        }
        lemma_skip(next, roots, entry);
    }
}

proof fn lemma_import_paths<'s>(roots: Roots, statements: Seq<Statement<'s>>, at: nat, j: int)
    requires
        at <= j < statements.len(),
    ensures
        match import_path(roots, statements[j]) {
            Some(path) => import_paths(roots, statements, at).contains(path),
            None => true,
        },
    decreases statements.len() - at,
{
    if let Some(path) = import_path(roots, statements[j]) {
        let all = import_paths(roots, statements, at);
        let later = import_paths(roots, statements, at + 1);
        if at == j {
            assert(all[all.len() - 1] == path);
        } else {
            lemma_import_paths(roots, statements, at + 1, j);
            let i = choose|i: int| 0 <= i < later.len() && later[i] == path;
            assert(all[i] == path);
        }
    }
}

/// Nothing is forgotten when a file is added whose imports are covered.
proof fn lemma_found<'s>(
    before: Search<'s>,
    after: Search<'s>,
    roots: Roots,
    entry: Seq<char>,
    imports: Seq<Seq<char>>,
)
    requires
        before.complete(roots, entry),
        before.waiting.len() > 0,
        before.finds(after, after.files.last().canonical@, after.files.last().statements, imports),
        forall|j: int|
            0 <= j < after.files.last().statements@.len() ==> match (#[trigger] import_path(
                roots,
                after.files.last().statements@[j],
            )) {
                Some(path) => before.covers(path) || imports.contains(path),
                None => true,
            },
    ensures
        after.complete(roots, entry),
{
    assert(after.files.drop_last() =~= before.files);
    assert forall|path: Seq<char>| before.covers(path) implies #[trigger] after.covers(path) by {
        if before.waiting.contains(path) {
            lemma_waited(before.waiting, path);
        }
        if before.knows(path) || path == before.waiting.last() {
            lemma_file_added(before, after, path);
        } else {
            let rest = before.waiting.drop_last();
            let i = choose|i: int| 0 <= i < rest.len() && rest[i] == path;
            assert(after.waiting[i] == path);
        }
    }
    assert forall|path: Seq<char>| imports.contains(path) implies #[trigger] after.covers(
        path,
    ) by {
        let i = choose|i: int| 0 <= i < imports.len() && imports[i] == path;
        assert(after.waiting[before.waiting.len() - 1 + i] == path);
    }
    assert forall|i: int, j: int|
        0 <= i < after.files.len() && 0 <= j < after.files[i].statements@.len() implies match (
    #[trigger] import_path(roots, after.files[i].statements@[j])) {
        Some(path) => after.covers(path),
        None => true,
    } by {
        if i < before.files.len() {
            assert(after.files[i] == before.files[i]);
            assert(match import_path(roots, before.files[i].statements@[j]) {
                Some(path) => before.covers(path),
                None => true,
            });
        }
    }
}

/// The search for the files of a program.
pub struct Sources<'s> {
    entry: &'s str,
    resolver: ModuleResolver<'s>,
    arena: &'s Arena,
    files: Vec<ModuleFile<'s>>,
    absent: Vec<&'s str>,
    waiting: Vec<&'s str>,
}

impl<'s> View for Sources<'s> {
    type V = Search<'s>;

    closed spec fn view(&self) -> Search<'s> {
        Search {
            files: self.files@,
            absent: segment_views(self.absent@),
            waiting: segment_views(self.waiting@),
        }
    }
}

fn has_path(paths: &Vec<&str>, path: &str) -> (found: bool)
    ensures
        found == segment_views(paths@).contains(path@),
{
    let ghost views = segment_views(paths@);
    let mut i: usize = 0;
    while i < paths.len()
        invariant
            i <= paths@.len(),
            views == segment_views(paths@),
            forall|j: int| 0 <= j < i ==> #[trigger] views[j] != path@,
        decreases paths@.len() - i,
    {
        assert(views[i as int] == paths@[i as int]@);
        if text_eq(paths[i], path) {
            return true;
        }
        i = i + 1;
    }
    false
}

impl<'s> Sources<'s> {
    pub closed spec fn roots(self) -> Roots {
        self.resolver@
    }

    pub closed spec fn entry(self) -> Seq<char> {
        self.entry@
    }

    /// Nothing is forgotten.
    pub open spec fn wf(self) -> bool {
        self@.complete(self.roots(), self.entry())
    }

    /// The search from a file on: the entry comes first, then the prelude.
    pub fn new(entry: &'s str, resolver: ModuleResolver<'s>, arena: &'s Arena) -> (sources: Self)
        ensures
            sources.wf(),
            sources.roots() == resolver@,
            sources.entry() == entry@,
            sources@ == (Search {
                files: Seq::empty(),
                absent: Seq::empty(),
                waiting: prelude_paths(resolver@).push(entry@),
            }),
    {
        let mut waiting: Vec<&'s str> = Vec::new();
        let ghost paths = prelude_paths(resolver@);
        assert(segment_views(waiting@) =~= paths.take(0));
        let mut i: usize = 0;
        while i < PRELUDE_FILES
            invariant
                i <= PRELUDE_FILES,
                paths == prelude_paths(resolver@),
                segment_views(waiting@) == paths.take(i as int),
            decreases PRELUDE_FILES - i,
        {
            let ghost before = waiting@;
            let path = joined_path(resolver.std_root(), prelude_name(PRELUDE_FILES - 1 - i));
            let path: &'s str = arena.place_str(path.as_str());
            waiting.push(path);
            assert(segment_views(waiting@) =~= segment_views(before).push(path@));
            assert(paths.take(i as int).push(paths[i as int]) =~= paths.take(i + 1));
            i = i + 1;
        }
        let ghost before = waiting@;
        waiting.push(entry);
        assert(segment_views(waiting@) =~= segment_views(before).push(entry@));
        assert(paths.take(i as int) =~= paths);
        let sources = Sources {
            entry,
            resolver,
            arena,
            files: Vec::new(),
            absent: Vec::new(),
            waiting,
        };
        assert(sources@.files =~= Seq::empty());
        assert(sources@.absent =~= Seq::empty());
        proof {
            let waiting = sources@.waiting;
            assert(waiting[waiting.len() - 1] == entry@);
            assert forall|k: int| 0 <= k < PRELUDE_FILES implies sources@.covers(
                #[trigger] join_path(resolver@.std, prelude()[k]),
            ) by {
                assert(waiting[PRELUDE_FILES - 1 - k] == join_path(resolver@.std, prelude()[k]));
            }
        }
        sources
    }

    /// The next path to look at, if there is one left.
    pub fn next(&mut self) -> (path: Option<&'s str>)
        requires
            old(self).wf(),
        ensures
            final(self).wf(),
            final(self).roots() == old(self).roots(),
            final(self).entry() == old(self).entry(),
            final(self)@ == old(self)@.skip(),
            match path {
                Some(path) => final(self)@.waiting.len() > 0 && final(self)@.waiting.last()
                    == path@ && !final(self)@.knows(path@),
                None => final(self)@.waiting.len() == 0,
            },
    {
        proof {
            lemma_skip(self@, self.roots(), self.entry());
        }
        while self.waiting.len() > 0
            invariant
                self.roots() == old(self).roots(),
                self.entry() == old(self).entry(),
                self@.skip() == old(self)@.skip(),
                old(self)@.skip().complete(old(self).roots(), old(self).entry()),
            decreases self.waiting@.len(),
        {
            let ghost before = self@;
            let last: usize = self.waiting.len() - 1;
            let path: &'s str = self.waiting[last];
            assert(before.waiting.last() == path@);
            if file_index(&self.files, path).is_none() && !has_path(&self.absent, path) {
                return Some(path);
            }
            self.waiting.truncate(last);
            assert(self@.waiting =~= before.waiting.drop_last());
        }
        assert(self@.waiting.len() == 0);
        None
    }

    /// Records that the next path leads to no file.
    pub fn absent(&mut self)
        requires
            old(self).wf(),
            old(self)@.waiting.len() > 0,
        ensures
            final(self).wf(),
            final(self).roots() == old(self).roots(),
            final(self).entry() == old(self).entry(),
            final(self)@ == (Search {
                absent: old(self)@.absent.push(old(self)@.waiting.last()),
                waiting: old(self)@.waiting.drop_last(),
                ..old(self)@
            }),
    {
        let ghost before = self@;
        let last: usize = self.waiting.len() - 1;
        let path: &'s str = self.waiting[last];
        self.waiting.truncate(last);
        self.absent.push(path);
        assert(self@.waiting =~= before.waiting.drop_last());
        assert(self@.absent =~= before.absent.push(path@));
        proof {
            assert forall|path: Seq<char>| before.covers(path) implies #[trigger] self@.covers(
                path,
            ) by {
                if before.waiting.contains(path) {
                    lemma_waited(before.waiting, path);
                }
                let absent = self@.absent;
                if before.absent.contains(path) {
                    let i = choose|i: int|
                        0 <= i < before.absent.len() && before.absent[i] == path;
                    assert(absent[i] == path);
                }
                assert(absent[absent.len() - 1] == before.waiting.last());
            }
        }
    }

    /// Records that the next path leads to the file that `canonical` stands for, if that file was
    /// read before. Tells whether it was: if not, it is to be read.
    pub fn again(&mut self, canonical: &str) -> (known: bool)
        requires
            old(self).wf(),
            old(self)@.waiting.len() > 0,
        ensures
            final(self).wf(),
            final(self).roots() == old(self).roots(),
            final(self).entry() == old(self).entry(),
            match find_canonical(old(self)@.files, canonical@, 0) {
                None => !known && final(self)@ == old(self)@,
                Some(index) => known && old(self)@.finds(
                    final(self)@,
                    canonical@,
                    old(self)@.files[index as int].statements,
                    Seq::empty(),
                ),
            },
    {
        let ghost before = self@;
        let file = match canonical_index(&self.files, canonical) {
            None => return false,
            Some(index) => self.files[index],
        };
        let last: usize = self.waiting.len() - 1;
        let path: &'s str = self.waiting[last];
        self.waiting.truncate(last);
        self.files.push(ModuleFile { path, canonical: file.canonical, statements: file.statements });
        proof {
            lemma_find_canonical(before.files, canonical@, 0);
            assert(self@.waiting =~= before.waiting.drop_last() + Seq::empty());
            assert(before.finds(
                self@,
                self@.files.last().canonical@,
                file.statements,
                Seq::empty(),
            ));
            let index = find_canonical(before.files, canonical@, 0)->0;
            assert forall|j: int| 0 <= j < file.statements@.len() implies match (
            #[trigger] import_path(self.roots(), self@.files.last().statements@[j])) {
                Some(path) => before.covers(path) || Seq::<Seq<char>>::empty().contains(path),
                None => true,
            } by {
                assert(before.files[index as int].statements@[j] == file.statements@[j]);
            }
            lemma_found(before, self@, self.roots(), self.entry(), Seq::empty());
        }
        true
    }

    /// Records that the next path leads to the file that `canonical` stands for, and that it was
    /// read. Its imports come next.
    pub fn read(&mut self, canonical: &'s str, statements: &'s Vec<Statement<'s>>)
        requires
            old(self).wf(),
            old(self)@.waiting.len() > 0,
        ensures
            final(self).wf(),
            final(self).roots() == old(self).roots(),
            final(self).entry() == old(self).entry(),
            old(self)@.finds(
                final(self)@,
                canonical@,
                statements,
                import_paths(old(self).roots(), statements@, 0),
            ),
    {
        let ghost before = self@;
        let last: usize = self.waiting.len() - 1;
        let path: &'s str = self.waiting[last];
        self.waiting.truncate(last);
        self.files.push(ModuleFile { path, canonical, statements });
        let ghost file = self@.files.last();
        let mut i: usize = statements.len();
        assert(self@.waiting =~= before.waiting.drop_last() + import_paths(
            self.roots(),
            statements@,
            i as nat,
        ));
        while i > 0
            invariant
                i <= statements@.len(),
                before == old(self)@,
                self.roots() == old(self).roots(),
                self.entry() == old(self).entry(),
                self@.files == before.files.push(file),
                self@.absent == before.absent,
                self@.waiting == before.waiting.drop_last() + import_paths(
                    self.roots(),
                    statements@,
                    i as nat,
                ),
            decreases i,
        {
            i = i - 1;
            let ghost waiting = self@.waiting;
            if let Statement::Item(item) = statements[i] {
                if let ItemKind::Use(declaration) = item.kind {
                    let resolved = self.resolver.resolve_path(
                        declaration.path,
                        declaration.span,
                        self.arena,
                    );
                    if let Ok(path) = resolved {
                        self.waiting.push(path);
                        assert(self@.waiting =~= waiting.push(path@));
                    }
                }
            }
            assert(self@.waiting =~= before.waiting.drop_last() + import_paths(
                self.roots(),
                statements@,
                i as nat,
            ));
        }
        proof {
            let imports = import_paths(self.roots(), statements@, 0);
            assert(before.finds(self@, canonical@, statements, imports));
            assert forall|j: int| 0 <= j < statements@.len() implies match (#[trigger] import_path(
                self.roots(),
                self@.files.last().statements@[j],
            )) {
                Some(path) => before.covers(path) || imports.contains(path),
                None => true,
            } by {
                lemma_import_paths(self.roots(), statements@, 0, j);
            }
            lemma_found(before, self@, self.roots(), self.entry(), imports);
        }
    }

    /// The files that were read.
    pub fn files(&self) -> (files: &Vec<ModuleFile<'s>>)
        ensures
            files@ == self@.files,
    {
        &self.files
    }
}

} // verus!
