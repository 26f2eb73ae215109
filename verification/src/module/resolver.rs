//! From import paths to files.

use crate::arena::Arena;
use crate::ast::Span;
use crate::module::error::ModuleError;
use crate::module::paths::{join_path, joined_path};
use crate::text::{push_text, text_eq};
use vstd::prelude::*;

verus! {

/// The roots of a program: its own, under its name, and that of the standard library.
#[derive(Debug, Clone, Copy)]
pub struct ModuleResolver<'s> {
    pub name: &'s str,
    pub root: &'s str,
    pub std: &'s str,
}

pub ghost struct Roots {
    pub name: Seq<char>,
    pub root: Seq<char>,
    pub std: Seq<char>,
}

impl<'s> View for ModuleResolver<'s> {
    type V = Roots;

    open spec fn view(&self) -> Roots {
        Roots { name: self.name@, root: self.root@, std: self.std@ }
    }
}

pub open spec fn segment_views(segments: Seq<&str>) -> Seq<Seq<char>> {
    segments.map_values(|segment: &str| segment@)
}

impl Roots {
    /// The directory that the first segment of a path stands for.
    pub open spec fn base(self, root: Seq<char>) -> Option<Seq<char>> {
        if root == self.name {
            Some(self.root)
        } else if root == "std"@ {
            Some(self.std)
        } else {
            None
        }
    }

    /// The file a path stands for: below the root that its first segment names, through the
    /// directories in between, the file of its last segment.
    pub open spec fn resolve(self, segments: Seq<Seq<char>>, span: Span) -> Result<
        Seq<char>,
        ModuleError<Seq<char>>,
    > {
        if segments.len() <= 1 {
            Err(ModuleError::EmptyPath)
        } else {
            match self.base(segments[0]) {
                None => Err(ModuleError::UnknownRoot { name: segments[0], span }),
                Some(base) => Ok(
                    join_path(directories(base, segments, 1), segments.last() + ".nyx"@),
                ),
            }
        }
    }
}

/// The directory below `base` through the segments from `at` to before the last.
pub open spec fn directories(base: Seq<char>, segments: Seq<Seq<char>>, at: nat) -> Seq<char>
    decreases segments.len() - at,
{
    if at + 1 >= segments.len() {
        base
    } else {
        directories(join_path(base, segments[at as int]), segments, at + 1)
    }
}

pub open spec fn seen_path<'s>(result: Result<&'s str, ModuleError<&'s str>>) -> Result<
    Seq<char>,
    ModuleError<Seq<char>>,
> {
    match result {
        Ok(path) => Ok(path@),
        Err(error) => Err(error@),
    }
}

impl<'s> ModuleResolver<'s> {
    pub fn new(name: &'s str, root: &'s str, std: &'s str) -> (resolver: Self)
        ensures
            resolver.name == name,
            resolver.root == root,
            resolver.std == std,
    {
        ModuleResolver { name, root, std }
    }

    pub fn std_root(&self) -> (root: &'s str)
        ensures
            root == self.std,
    {
        self.std
    }

    /// The file an import path stands for.
    pub fn resolve_path(&self, segments: &Vec<&'s str>, span: Span, arena: &'s Arena) -> (outcome:
        Result<&'s str, ModuleError<&'s str>>)
        ensures
            seen_path(outcome) == self@.resolve(segment_views(segments@), span),
    {
        let count: usize = segments.len();
        if count <= 1 {
            return Err(ModuleError::EmptyPath);
        }
        let ghost views = segment_views(segments@);
        let root = segments[0];
        assert(views[0] == root@);
        let base = if text_eq(root, self.name) {
            self.root
        } else if text_eq(root, "std") {
            self.std
        } else {
            return Err(ModuleError::UnknownRoot { name: root, span });
        };
        let mut path = base.to_owned();
        let mut i: usize = 1;
        while i < count - 1
            invariant
                1 <= i <= count - 1,
                count == segments@.len(),
                views == segment_views(segments@),
                directories(base@, views, 1) == directories(path@, views, i as nat),
            decreases count - i,
        {
            assert(views[i as int] == segments@[i as int]@);
            path = joined_path(path.as_str(), segments[i]);
            i = i + 1;
        }
        let mut file = segments[count - 1].to_owned();
        assert(views.last() == file@);
        push_text(&mut file, ".nyx");
        let full = joined_path(path.as_str(), file.as_str());
        Ok(arena.place_str(full.as_str()))
    }
}

/// The paths of a project stay below its root: a path that resolves under the project's name
/// lies in the project's directory, if no segment starts at the root of the file system.
pub proof fn lemma_resolved_within(roots: Roots, segments: Seq<Seq<char>>, span: Span)
    requires
        roots.resolve(segments, span) is Ok,
        roots.base(segments[0])->0.len() > 0,
        forall|i: int|
            0 <= i < segments.len() ==> (#[trigger] segments[i]).len() > 0 && segments[i][0] != '/',
    ensures
        crate::module::paths::is_within(
            roots.resolve(segments, span)->Ok_0,
            roots.base(segments[0])->0,
        ),
{
    let base = roots.base(segments[0])->0;
    lemma_join_within(base, base, Seq::empty());
    lemma_directories_within(base, base, segments, 1);
    let dir = directories(base, segments, 1);
    let file = segments.last() + ".nyx"@;
    assert(file[0] == segments.last()[0]);
    lemma_join_within(dir, base, file);
}

proof fn lemma_directories_within(
    dir: Seq<char>,
    base: Seq<char>,
    segments: Seq<Seq<char>>,
    at: nat,
)
    requires
        base.len() > 0,
        crate::module::paths::is_within(dir, base),
        forall|i: int|
            0 <= i < segments.len() ==> (#[trigger] segments[i]).len() > 0 && segments[i][0] != '/',
    ensures
        crate::module::paths::is_within(directories(dir, segments, at), base),
    decreases segments.len() - at,
{
    if at + 1 < segments.len() {
        lemma_join_within(dir, base, segments[at as int]);
        lemma_directories_within(join_path(dir, segments[at as int]), base, segments, at + 1);
    }
}

proof fn lemma_join_within(dir: Seq<char>, base: Seq<char>, part: Seq<char>)
    requires
        base.len() > 0,
        part.len() > 0 ==> crate::module::paths::is_within(dir, base) && part[0] != '/',
    ensures
        part.len() > 0 ==> crate::module::paths::is_within(join_path(dir, part), base),
        crate::module::paths::is_within(base, base),
{
    assert(base.take(base.len() as int) =~= base);
    if part.len() > 0 {
        reveal_strlit("/");
        let joined = join_path(dir, part);
        assert(joined.take(base.len() as int) =~= dir.take(base.len() as int));
    }
}

} // verus!
