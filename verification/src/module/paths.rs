//! Paths as text, with `/` between their parts.

use crate::text::push_text;
use vstd::prelude::*;

verus! {

/// A path with one more part: the part alone if it starts at the root.
pub open spec fn join_path(base: Seq<char>, part: Seq<char>) -> Seq<char> {
    if base.len() == 0 || (part.len() > 0 && part[0] == '/') {
        part
    } else if base.last() == '/' {
        base + part
    } else {
        base + "/"@ + part
    }
}

pub fn joined_path(base: &str, part: &str) -> (path: String)
    ensures
        path@ == join_path(base@, part@),
{
    let base_chars = crate::text::chars_of(base);
    let part_chars = crate::text::chars_of(part);
    if base_chars.len() == 0 || (part_chars.len() > 0 && part_chars[0] == '/') {
        return part.to_owned();
    }
    let mut path = base.to_owned();
    if base_chars[base_chars.len() - 1] != '/' {
        push_text(&mut path, "/");
    }
    push_text(&mut path, part);
    path
}

/// Whether a path lies at or below another.
pub open spec fn is_within(path: Seq<char>, base: Seq<char>) -> bool {
    base.len() == 0 || (base.len() <= path.len() && path.take(base.len() as int) == base && (
    path.len() == base.len() || base.last() == '/' || path[base.len() as int] == '/'))
}

pub fn path_within(path: &str, base: &str) -> (within: bool)
    ensures
        within == is_within(path@, base@),
{
    let path_chars = crate::text::chars_of(path);
    let base_chars = crate::text::chars_of(base);
    if base_chars.len() == 0 {
        return true;
    }
    if base_chars.len() > path_chars.len() {
        return false;
    }
    let mut i: usize = 0;
    while i < base_chars.len()
        invariant
            i <= base_chars@.len() <= path_chars@.len(),
            path_chars@ == path@,
            base_chars@ == base@,
            base@.len() > 0,
            forall|k: int| 0 <= k < i ==> path@[k] == base@[k],
        decreases base_chars@.len() - i,
    {
        if path_chars[i] != base_chars[i] {
            assert(path@.take(base@.len() as int)[i as int] != base@[i as int]);
            return false;
        }
        i = i + 1;
    }
    assert(path@.take(base@.len() as int) =~= base@);
    path_chars.len() == base_chars.len() || base_chars[base_chars.len() - 1] == '/'
        || path_chars[base_chars.len()] == '/'
}

/// The rank of a character in the order of paths: what separates parts comes first.
pub open spec fn rank(c: char) -> nat {
    if c == '/' {
        0
    } else {
        c as u32 as nat + 1
    }
}

/// Whether a path comes before another, part by part, from `at` on.
pub open spec fn comes_before(a: Seq<char>, b: Seq<char>, at: nat) -> bool
    decreases b.len() - at,
{
    if at >= b.len() {
        false
    } else if at >= a.len() {
        true
    } else if a[at as int] == b[at as int] {
        comes_before(a, b, at + 1)
    } else {
        rank(a[at as int]) < rank(b[at as int])
    }
}

pub fn path_before(a: &str, b: &str) -> (before: bool)
    ensures
        before == comes_before(a@, b@, 0),
{
    let a_chars = crate::text::chars_of(a);
    let b_chars = crate::text::chars_of(b);
    let mut i: usize = 0;
    while i < b_chars.len()
        invariant
            i <= b_chars@.len(),
            a_chars@ == a@,
            b_chars@ == b@,
            comes_before(a@, b@, 0) == comes_before(a@, b@, i as nat),
        decreases b_chars@.len() - i,
    {
        if i >= a_chars.len() {
            return true;
        }
        let x = a_chars[i];
        let y = b_chars[i];
        if x != y {
            return x == '/' || (y != '/' && (x as u32) < (y as u32));
        }
        i = i + 1;
    }
    false
}

/// The name of a file without its extension.
pub open spec fn stem(name: Seq<char>) -> Seq<char> {
    let dot = last_dot(name, name.len());
    if dot == 0 || name == ".."@ {
        name
    } else {
        name.take(dot as int)
    }
}

/// The last `.` before `end`: 0 if there is none.
pub open spec fn last_dot(name: Seq<char>, end: nat) -> nat
    decreases end,
{
    if end == 0 || end > name.len() {
        0
    } else if name[end - 1] == '.' {
        (end - 1) as nat
    } else {
        last_dot(name, (end - 1) as nat)
    }
}

pub fn stem_text(name: &str) -> (text: String)
    ensures
        text@ == stem(name@),
{
    let chars = crate::text::chars_of(name);
    let mut end: usize = chars.len();
    while end > 0 && chars[end - 1] != '.'
        invariant
            end <= chars@.len(),
            chars@ == name@,
            last_dot(name@, name@.len()) == last_dot(name@, end as nat),
        decreases end,
    {
        end = end - 1;
    }
    if end <= 1 || crate::text::text_eq(name, "..") {
        return name.to_owned();
    }
    let mut text = String::new();
    crate::text::push_range(&mut text, &chars, 0, end - 1);
    assert(text@ =~= name@.take(end - 1));
    text
}

/// The parts of a path from `at` on, what has been read of the current one in `part`.
pub open spec fn parts_from(
    path: Seq<char>,
    at: nat,
    part: Seq<char>,
    parts: Seq<Seq<char>>,
) -> Seq<Seq<char>>
    decreases path.len() - at,
{
    if at >= path.len() {
        with_part(parts, part, is_rooted(path))
    } else if path[at as int] == '/' {
        parts_from(path, at + 1, Seq::empty(), with_part(parts, part, is_rooted(path)))
    } else {
        parts_from(path, at + 1, part.push(path[at as int]), parts)
    }
}

/// The parts with one more, unless it says nothing: `.` counts only where a path begins with it.
pub open spec fn with_part(parts: Seq<Seq<char>>, part: Seq<char>, rooted: bool) -> Seq<Seq<char>> {
    if part.len() == 0 || (part == "."@ && (rooted || parts.len() > 0)) {
        parts
    } else {
        parts.push(part)
    }
}

/// The parts of a path.
pub open spec fn path_parts(path: Seq<char>) -> Seq<Seq<char>> {
    parts_from(path, 0, Seq::empty(), Seq::empty())
}

pub open spec fn part_views(parts: Seq<String>) -> Seq<Seq<char>> {
    parts.map_values(|part: String| part@)
}

fn push_part(parts: &mut Vec<String>, part: String, rooted: bool)
    ensures
        part_views(final(parts)@) == with_part(part_views(old(parts)@), part@, rooted),
{
    let is_here = crate::text::text_eq(part.as_str(), ".");
    if !part.as_str().is_empty() && !(is_here && (rooted || parts.len() > 0)) {
        let ghost before = parts@;
        let ghost text = part@;
        parts.push(part);
        assert(part_views(parts@) =~= part_views(before).push(text));
    }
}

/// Splits a path into its parts.
pub fn split_path(path: &str) -> (parts: Vec<String>)
    ensures
        part_views(parts@) == path_parts(path@),
{
    let chars = crate::text::chars_of(path);
    let mut parts: Vec<String> = Vec::new();
    let mut part = String::new();
    let rooted = starts_at_root(path);
    assert(part_views(parts@) =~= Seq::empty());
    let mut i: usize = 0;
    while i < chars.len()
        invariant
            i <= chars@.len(),
            chars@ == path@,
            rooted == is_rooted(path@),
            path_parts(path@) == parts_from(path@, i as nat, part@, part_views(parts@)),
        decreases chars@.len() - i,
    {
        if chars[i] == '/' {
            push_part(&mut parts, part, rooted);
            part = String::new();
        } else {
            part.push(chars[i]);
        }
        i = i + 1;
    }
    push_part(&mut parts, part, rooted);
    parts
}

/// The parts of a path below a directory, if it lies there.
pub open spec fn relative_parts(path: Seq<char>, base: Seq<char>) -> Option<Seq<Seq<char>>> {
    let parts = path_parts(path);
    let above = path_parts(base);
    if above.len() <= parts.len() && parts.take(above.len() as int) == above && is_rooted(path)
        == is_rooted(base) {
        Some(parts.skip(above.len() as int))
    } else {
        None
    }
}

pub open spec fn is_rooted(path: Seq<char>) -> bool {
    path.len() > 0 && path[0] == '/'
}

fn starts_at_root(path: &str) -> (rooted: bool)
    ensures
        rooted == is_rooted(path@),
{
    let chars = crate::text::chars_of(path);
    chars.len() > 0 && chars[0] == '/'
}

/// The parts of a path below a directory.
pub fn parts_below(path: &str, base: &str) -> (parts: Option<Vec<String>>)
    ensures
        (match parts {
            Some(parts) => Some(part_views(parts@)),
            None => None,
        }) == relative_parts(path@, base@),
{
    let all = split_path(path);
    let above = split_path(base);
    if above.len() > all.len() || starts_at_root(path) != starts_at_root(base) {
        return None;
    }
    let ghost parts = path_parts(path@);
    let ghost heads = path_parts(base@);
    let mut i: usize = 0;
    while i < above.len()
        invariant
            i <= above@.len() <= all@.len(),
            parts == part_views(all@),
            heads == part_views(above@),
            parts == path_parts(path@),
            heads == path_parts(base@),
            forall|k: int| 0 <= k < i ==> parts[k] == heads[k],
        decreases above@.len() - i,
    {
        assert(parts[i as int] == all@[i as int]@);
        assert(heads[i as int] == above@[i as int]@);
        if !crate::text::text_eq(all[i].as_str(), above[i].as_str()) {
            assert(parts.take(heads.len() as int)[i as int] != heads[i as int]);
            return None;
        }
        i = i + 1;
    }
    assert(parts.take(heads.len() as int) =~= heads);
    let mut rest: Vec<String> = Vec::new();
    let mut j: usize = above.len();
    while j < all.len()
        invariant
            heads.len() <= j <= all@.len(),
            parts == part_views(all@),
            part_views(rest@) == parts.subrange(heads.len() as int, j as int),
        decreases all@.len() - j,
    {
        assert(parts[j as int] == all@[j as int]@);
        let ghost before = rest@;
        rest.push(all[j].as_str().to_owned());
        assert(part_views(rest@) =~= part_views(before).push(parts[j as int]));
        j = j + 1;
        assert(part_views(rest@) =~= parts.subrange(heads.len() as int, j as int));
    }
    assert(part_views(rest@) =~= parts.skip(heads.len() as int));
    Some(rest)
}

/// A module path: the root and the parts below it, without the extension of the file. A file
/// `main` is the module of its directory.
pub open spec fn path_of_module(root: Seq<char>, parts: Seq<Seq<char>>) -> Seq<char> {
    let names = parts.update(parts.len() - 1, stem(parts.last()));
    if parts.len() == 0 {
        root
    } else if names.last() == "main"@ {
        joined_segments(root, names.drop_last(), 0)
    } else {
        joined_segments(root, names, 0)
    }
}

/// A path with the segments from `at` on.
pub open spec fn joined_segments(out: Seq<char>, segments: Seq<Seq<char>>, at: nat) -> Seq<char>
    decreases segments.len() - at,
{
    if at >= segments.len() {
        out
    } else {
        joined_segments(out + "::"@ + segments[at as int], segments, at + 1)
    }
}

/// The module path of a file below a root.
pub fn module_path_text(root: &str, parts: &Vec<String>) -> (path: String)
    ensures
        path@ == path_of_module(root@, part_views(parts@)),
{
    let mut path = root.to_owned();
    let count: usize = parts.len();
    if count == 0 {
        return path;
    }
    let ghost views = part_views(parts@);
    let last = stem_text(parts[count - 1].as_str());
    assert(views.last() == parts@[count - 1]@);
    let ghost names = views.update(views.len() - 1, stem(views.last()));
    let is_main = crate::text::text_eq(last.as_str(), "main");
    let ghost shown = if is_main {
        names.drop_last()
    } else {
        names
    };
    let mut i: usize = 0;
    while i < count - 1
        invariant
            i <= count - 1,
            count == parts@.len(),
            views == part_views(parts@),
            names == views.update(views.len() - 1, stem(views.last())),
            shown == (if is_main {
                names.drop_last()
            } else {
                names
            }),
            joined_segments(root@, shown, 0) == joined_segments(path@, shown, i as nat),
        decreases count - i,
    {
        assert(shown[i as int] == parts@[i as int]@);
        push_text(&mut path, "::");
        push_text(&mut path, parts[i].as_str());
        i = i + 1;
    }
    if !is_main {
        assert(shown[count - 1] == last@);
        push_text(&mut path, "::");
        push_text(&mut path, last.as_str());
        assert(joined_segments(path@, shown, count as nat) == path@);
    }
    path
}

/// The module a file stands for: below the project's root or that of the standard library, and
/// else by its own name.
pub open spec fn file_module(
    file: Seq<char>,
    project: Seq<char>,
    root: Seq<char>,
    std_root: Seq<char>,
) -> Seq<char> {
    match relative_parts(file, root) {
        Some(parts) => path_of_module(project, parts),
        None => match relative_parts(file, std_root) {
            Some(parts) => path_of_module("std"@, parts),
            None => {
                let parts = path_parts(file);
                if parts.len() == 0 || parts.last() == "."@ || parts.last() == ".."@ {
                    project
                } else {
                    stem(parts.last())
                }
            },
        },
    }
}

pub fn file_module_text(file: &str, project: &str, root: &str, std_root: &str) -> (module: String)
    ensures
        module@ == file_module(file@, project@, root@, std_root@),
{
    match parts_below(file, root) {
        Some(parts) => module_path_text(project, &parts),
        None => match parts_below(file, std_root) {
            Some(parts) => module_path_text("std", &parts),
            None => {
                let parts = split_path(file);
                let ghost views = part_views(parts@);
                if parts.len() == 0 {
                    return project.to_owned();
                }
                let last = parts[parts.len() - 1].as_str();
                assert(views.last() == last@);
                if crate::text::text_eq(last, ".") || crate::text::text_eq(last, "..") {
                    project.to_owned()
                } else {
                    stem_text(last)
                }
            },
        },
    }
}

} // verus!
