//! Documentation comments.

use crate::ast::Span;
use crate::hir::scope::{doc_views, Names, Scope};
use crate::text::push_text;
use vstd::prelude::*;
use vstd::string::StrSliceExecFns;

verus! {

/// A line without the space that usually follows the comment marker.
pub open spec fn trimmed(line: Seq<char>) -> Seq<char> {
    if line.len() > 0 && line[0] == ' ' {
        line.skip(1)
    } else {
        line
    }
}

/// The first `count` lines, trimmed and put one below the other.
pub open spec fn joined_lines<'a>(lines: Seq<&'a str>, count: int) -> Seq<char>
    decreases count,
{
    if count <= 0 {
        seq![]
    } else if count == 1 {
        trimmed(lines[0]@)
    } else {
        joined_lines(lines, count - 1).push('\n') + trimmed(lines[count - 1]@)
    }
}

/// The documentation a block of comment lines gives.
pub open spec fn docs_of<'a>(lines: Seq<&'a str>) -> Option<Seq<char>> {
    if lines.len() == 0 {
        None
    } else {
        Some(joined_lines(lines, lines.len() as int))
    }
}

/// Joins comment lines into one text, or nothing if there are none.
pub fn join_docs<'a>(lines: &Vec<&'a str>) -> (docs: Option<String>)
    ensures
        docs_of(lines@) == (match docs {
            Some(docs) => Some(docs@),
            None => None,
        }),
{
    if lines.len() == 0 {
        return None;
    }
    let mut out = String::new();
    let mut i: usize = 0;
    while i < lines.len()
        invariant
            i <= lines@.len(),
            out@ == joined_lines(lines@, i as int),
        decreases lines@.len() - i,
    {
        if i > 0 {
            out.push('\n');
        }
        let line = lines[i];
        let len: usize = line.unicode_len();
        if len > 0 && line.get_char(0) == ' ' {
            let rest = line.substring_char(1, len);
            assert(rest@ =~= line@.skip(1));
            push_text(&mut out, rest);
        } else {
            push_text(&mut out, line);
        }
        i += 1;
        assert(out@ =~= joined_lines(lines@, i as int));
    }
    Some(out)
}

impl<'hir> Names<'hir> {
    /// Records the documentation of items from position `at` on.
    pub open spec fn collect_docs(self, docs: Seq<(Span, &'hir Vec<&'hir str>)>, at: nat) -> Names<
        'hir,
    >
        decreases docs.len() - at,
    {
        if at >= docs.len() {
            self
        } else {
            let (span, lines) = docs[at as int];
            let names = match docs_of(lines@) {
                Some(text) => Names { docs: self.docs.push((span, text)), ..self },
                None => self,
            };
            names.collect_docs(docs, at + 1)
        }
    }
}

impl<'hir> Scope<'hir> {
    /// Records the documentation of items.
    pub fn collect_docs(&mut self, docs: &Vec<(Span, &'hir Vec<&'hir str>)>)
        ensures
            final(self)@ == old(self)@.collect_docs(docs@, 0),
    {
        let mut i: usize = 0;
        while i < docs.len()
            invariant
                i <= docs@.len(),
                old(self)@.collect_docs(docs@, 0) == self@.collect_docs(docs@, i as nat),
            decreases docs@.len() - i,
        {
            let (span, lines) = docs[i];
            if let Some(text) = join_docs(lines) {
                let text = self.arena.place_str(text.as_str());
                let ghost before = self.docs@;
                self.docs.push((span, text));
                assert(doc_views(self.docs@) =~= doc_views(before).push((span, text@)));
            }
            i += 1;
        }
    }
}

} // verus!
