//! The diagnostics sink used during lowering.
//!
//! Instead of aborting on the first error, lowering in recovery mode records errors here and
//! goes on, so a single pass can report every error.

use crate::hir::error::HirError;
use crate::hir::types::{Type, TypeKind};
use vstd::prelude::*;

verus! {

/// A zero-sized proof that an error has been reported.
///
/// Only [`Diagnostics::emit`] makes one.
#[derive(Debug, Clone, Copy, PartialEq, Eq)]
pub struct ErrorGuaranteed(());

/// Accumulates the errors of a lowering pass.
pub struct Diagnostics<'hir> {
    errors: Vec<HirError<&'hir str>>,
}

/// The errors as contracts see them.
pub open spec fn error_views<'hir>(errors: Seq<HirError<&'hir str>>) -> Seq<HirError<Seq<char>>> {
    Seq::new(errors.len(), |i: int| errors[i]@)
}

impl<'hir> View for Diagnostics<'hir> {
    type V = Seq<HirError<Seq<char>>>;

    closed spec fn view(&self) -> Seq<HirError<Seq<char>>> {
        error_views(self.errors@)
    }
}

impl<'hir> Diagnostics<'hir> {
    pub fn new() -> (diagnostics: Self)
        ensures
            diagnostics@ == Seq::<HirError<Seq<char>>>::empty(),
    {
        let diagnostics = Diagnostics { errors: Vec::new() };
        assert(diagnostics@ =~= Seq::<HirError<Seq<char>>>::empty());
        diagnostics
    }

    /// Records an error.
    pub fn emit(&mut self, error: HirError<&'hir str>) -> (guaranteed: ErrorGuaranteed)
        ensures
            final(self)@ == old(self)@.push(error@),
    {
        self.errors.push(error);
        assert(self@ =~= old(self)@.push(error@));
        ErrorGuaranteed(())
    }

    /// Hands out all recorded errors, leaving none.
    pub fn take_errors(&mut self) -> (errors: Vec<HirError<&'hir str>>)
        ensures
            error_views(errors@) == old(self)@,
            final(self)@ == Seq::<HirError<Seq<char>>>::empty(),
    {
        let mut errors: Vec<HirError<&'hir str>> = Vec::new();
        errors.append(&mut self.errors);
        assert(errors@ =~= old(self).errors@);
        assert(self@ =~= Seq::<HirError<Seq<char>>>::empty());
        errors
    }
}

impl Type {
    /// The type of something that has been reported.
    pub fn error(guaranteed: ErrorGuaranteed) -> (typ: Type)
        ensures
            typ == Type::new(TypeKind::Error),
    {
        Type::new(TypeKind::Error)
    }
}

} // verus!
