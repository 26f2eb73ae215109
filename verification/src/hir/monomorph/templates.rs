//! The generic items of a module.

use crate::ast::{Enum, Function, Impl, ItemKind, Statement, Struct};
use crate::text::text_eq;
use vstd::prelude::*;

verus! {

/// Generic items by name, of each name the last one, and the generic `impl` blocks.
pub struct Templates<'s> {
    pub structs: Vec<&'s Struct<'s>>,
    pub enums: Vec<&'s Enum<'s>>,
    pub fns: Vec<&'s Function<'s>>,
    pub impls: Vec<&'s Impl<'s>>,
}

/// Templates as contracts see them.
pub ghost struct TemplateSet<'s> {
    pub structs: Seq<&'s Struct<'s>>,
    pub enums: Seq<&'s Enum<'s>>,
    pub fns: Seq<&'s Function<'s>>,
    pub impls: Seq<&'s Impl<'s>>,
}

impl<'s> View for Templates<'s> {
    type V = TemplateSet<'s>;

    open spec fn view(&self) -> TemplateSet<'s> {
        TemplateSet {
            structs: self.structs@,
            enums: self.enums@,
            fns: self.fns@,
            impls: self.impls@,
        }
    }
}

pub open spec fn last_struct<'s>(items: Seq<&'s Struct<'s>>, name: Seq<char>) -> Option<
    &'s Struct<'s>,
>
    decreases items.len(),
{
    if items.len() == 0 {
        None
    } else if items.last().name@ == name {
        Some(items.last())
    } else {
        last_struct(items.drop_last(), name)
    }
}

pub open spec fn last_enum<'s>(items: Seq<&'s Enum<'s>>, name: Seq<char>) -> Option<&'s Enum<'s>>
    decreases items.len(),
{
    if items.len() == 0 {
        None
    } else if items.last().name@ == name {
        Some(items.last())
    } else {
        last_enum(items.drop_last(), name)
    }
}

pub open spec fn last_fn<'s>(items: Seq<&'s Function<'s>>, name: Seq<char>) -> Option<
    &'s Function<'s>,
>
    decreases items.len(),
{
    if items.len() == 0 {
        None
    } else if items.last().name@ == name {
        Some(items.last())
    } else {
        last_fn(items.drop_last(), name)
    }
}

impl<'s> TemplateSet<'s> {
    pub open spec fn none() -> TemplateSet<'s> {
        TemplateSet { structs: seq![], enums: seq![], fns: seq![], impls: seq![] }
    }

    pub open spec fn structure(self, name: Seq<char>) -> Option<&'s Struct<'s>> {
        last_struct(self.structs, name)
    }

    pub open spec fn enumeration(self, name: Seq<char>) -> Option<&'s Enum<'s>> {
        last_enum(self.enums, name)
    }

    pub open spec fn function(self, name: Seq<char>) -> Option<&'s Function<'s>> {
        last_fn(self.fns, name)
    }

    /// Whether a name is that of a template.
    pub open spec fn has(self, name: Seq<char>) -> bool {
        self.structure(name) is Some || self.enumeration(name) is Some || self.function(
            name,
        ) is Some
    }

    /// Whether there is nothing that a copy could be made of.
    pub open spec fn is_bare(self) -> bool {
        self.structs.len() == 0 && self.fns.len() == 0 && self.enums.len() == 0
    }

    /// Whether a statement is a generic item.
    pub open spec fn is_template(statement: Statement<'s>) -> bool {
        match statement {
            Statement::Item(item) => match item.kind {
                ItemKind::Struct(item) => item.generics@.len() > 0,
                ItemKind::Enum(item) => item.generics@.len() > 0,
                ItemKind::Fn(item) => item.generics@.len() > 0,
                ItemKind::Impl(item) => item.generics@.len() > 0,
                _ => false,
            },
            _ => false,
        }
    }

    /// The templates together with a generic item.
    pub open spec fn with(self, statement: Statement<'s>) -> TemplateSet<'s> {
        match statement {
            Statement::Item(item) => match item.kind {
                ItemKind::Struct(item) => TemplateSet { structs: self.structs.push(item), ..self },
                ItemKind::Enum(item) => TemplateSet { enums: self.enums.push(item), ..self },
                ItemKind::Fn(item) => TemplateSet { fns: self.fns.push(item), ..self },
                ItemKind::Impl(item) => TemplateSet { impls: self.impls.push(item), ..self },
                _ => self,
            },
            _ => self,
        }
    }

    /// The templates together with the generic items among the first `count` statements.
    pub open spec fn with_all(self, statements: Seq<Statement<'s>>, count: nat) -> TemplateSet<'s>
        decreases count,
    {
        if count == 0 || count > statements.len() {
            self
        } else {
            let earlier = self.with_all(statements, (count - 1) as nat);
            if Self::is_template(statements[count - 1]) {
                earlier.with(statements[count - 1])
            } else {
                earlier
            }
        }
    }
}

/// What is not a template.
pub open spec fn concrete<'s>() -> spec_fn(Statement<'s>) -> bool {
    |statement: Statement<'s>| !TemplateSet::is_template(statement)
}

impl<'s> Templates<'s> {
    pub fn new() -> (templates: Self)
        ensures
            templates@ == TemplateSet::<'s>::none(),
    {
        Templates { structs: Vec::new(), enums: Vec::new(), fns: Vec::new(), impls: Vec::new() }
    }

    pub fn structure(&self, name: &str) -> (found: Option<&'s Struct<'s>>)
        ensures
            found == self@.structure(name@),
    {
        let mut i: usize = self.structs.len();
        assert(self.structs@.take(i as int) =~= self.structs@);
        while i > 0
            invariant
                i <= self.structs@.len(),
                last_struct(self.structs@.take(i as int), name@) == self@.structure(name@),
            decreases i,
        {
            i -= 1;
            assert(self.structs@.take(i + 1).drop_last() =~= self.structs@.take(i as int));
            if text_eq(self.structs[i].name, name) {
                return Some(self.structs[i]);
            }
        }
        None
    }

    pub fn enumeration(&self, name: &str) -> (found: Option<&'s Enum<'s>>)
        ensures
            found == self@.enumeration(name@),
    {
        let mut i: usize = self.enums.len();
        assert(self.enums@.take(i as int) =~= self.enums@);
        while i > 0
            invariant
                i <= self.enums@.len(),
                last_enum(self.enums@.take(i as int), name@) == self@.enumeration(name@),
            decreases i,
        {
            i -= 1;
            assert(self.enums@.take(i + 1).drop_last() =~= self.enums@.take(i as int));
            if text_eq(self.enums[i].name, name) {
                return Some(self.enums[i]);
            }
        }
        None
    }

    pub fn function(&self, name: &str) -> (found: Option<&'s Function<'s>>)
        ensures
            found == self@.function(name@),
    {
        let mut i: usize = self.fns.len();
        assert(self.fns@.take(i as int) =~= self.fns@);
        while i > 0
            invariant
                i <= self.fns@.len(),
                last_fn(self.fns@.take(i as int), name@) == self@.function(name@),
            decreases i,
        {
            i -= 1;
            assert(self.fns@.take(i + 1).drop_last() =~= self.fns@.take(i as int));
            if text_eq(self.fns[i].name, name) {
                return Some(self.fns[i]);
            }
        }
        None
    }

    /// Whether a name is that of a template.
    pub fn has(&self, name: &str) -> (has: bool)
        ensures
            has == self@.has(name@),
    {
        self.structure(name).is_some() || self.enumeration(name).is_some() || self.function(
            name,
        ).is_some()
    }

    /// Whether there is nothing that a copy could be made of.
    pub fn is_bare(&self) -> (bare: bool)
        ensures
            bare == self@.is_bare(),
    {
        self.structs.len() == 0 && self.fns.len() == 0 && self.enums.len() == 0
    }

    /// Adds a statement if it is a generic item.
    fn take(&mut self, statement: &Statement<'s>) -> (taken: bool)
        ensures
            taken == TemplateSet::is_template(*statement),
            final(self)@ == (if taken {
                old(self)@.with(*statement)
            } else {
                old(self)@
            }),
    {
        match *statement {
            Statement::Item(item) => match item.kind {
                ItemKind::Struct(item) => if item.generics.len() > 0 {
                    self.structs.push(item);
                    true
                } else {
                    false
                },
                ItemKind::Enum(item) => if item.generics.len() > 0 {
                    self.enums.push(item);
                    true
                } else {
                    false
                },
                ItemKind::Fn(item) => if item.generics.len() > 0 {
                    self.fns.push(item);
                    true
                } else {
                    false
                },
                ItemKind::Impl(item) => if item.generics.len() > 0 {
                    self.impls.push(item);
                    true
                } else {
                    false
                },
                _ => false,
            },
            _ => false,
        }
    }
}

impl<'s> Default for Templates<'s> {
    fn default() -> (templates: Self)
        ensures
            templates@ == TemplateSet::<'s>::none(),
    {
        Templates::new()
    }
}

/// Moves the generic items of a module to the templates.
pub fn extract_templates<'s>(statements: &mut Vec<Statement<'s>>, templates: &mut Templates<'s>)
    ensures
        final(statements)@ == old(statements)@.filter(concrete()),
        final(templates)@ == old(templates)@.with_all(
            old(statements)@,
            old(statements)@.len(),
        ),
{
    let ghost all = statements@;
    let mut kept: Vec<Statement<'s>> = Vec::new();
    let mut i: usize = 0;
    proof {
        reveal(Seq::filter);
        assert(all.take(0).filter(concrete()) =~= seq![]);
    }
    while i < statements.len()
        invariant
            i <= statements@.len(),
            all == statements@,
            all == old(statements)@,
            kept@ == all.take(i as int).filter(concrete()),
            templates@ == old(templates)@.with_all(all, i as nat),
        decreases statements@.len() - i,
    {
        proof {
            reveal(Seq::filter);
            assert(all.take(i + 1).drop_last() =~= all.take(i as int));
        }
        if !templates.take(&statements[i]) {
            kept.push(statements[i]);
        }
        i += 1;
    }
    assert(all.take(i as int) =~= all);
    *statements = kept;
}

} // verus!
