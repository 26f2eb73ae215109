//! Arena storage for lowered trees and source text.

use bumpalo::Bump;
use vstd::prelude::*;

verus! {

/// `bumpalo::Bump`, an arena that hands out references living as long as itself.
#[verifier::external_type_specification]
#[verifier::external_body]
pub struct ExBump<const MIN_ALIGN: usize>(Bump<MIN_ALIGN>);

/// The arena every lowered node is allocated in.
///
/// It is always an unlimited arena, so an allocation only fails when memory is exhausted.
pub struct Arena {
    bump: Bump,
}

/// The slice holding exactly `items`.
///
/// Slices with equal items are equal, so there is at most one.
pub open spec fn slice_of<'a, T>(items: Seq<T>) -> &'a [T] {
    choose|slice: &'a [T]| slice@ == items
}

/// Two slices with the same items are the same slice.
pub proof fn lemma_slice_of<'a, T>(slice: &'a [T])
    ensures
        slice == slice_of::<T>(slice@),
        slice_of::<T>(slice@)@ == slice@,
{
    let chosen: &[T] = slice_of::<T>(slice@);
    assert(chosen@ == slice@);
    assert(slice =~= chosen);
}

/// `bumpalo::Bump::new`: an empty arena without an allocation limit.
#[verifier::external_body]
fn new_bump() -> Bump {
    Bump::new()
}

/// `bumpalo::Bump::alloc`: moves `value` into the arena and returns a reference to it.
#[verifier::external_body]
fn bump_alloc<T>(bump: &Bump, value: T) -> (placed: &T)
    ensures
        *placed == value,
{
    bump.alloc(value)
}

/// `bumpalo::Bump::alloc_slice_copy`: copies the items into the arena, in order.
#[verifier::external_body]
fn bump_alloc_slice_copy<'a, T: Copy>(bump: &'a Bump, items: &[T]) -> (placed: &'a [T])
    ensures
        placed@ == items@,
{
    bump.alloc_slice_copy(items)
}

/// `bumpalo::Bump::alloc_str`: copies the text into the arena.
#[verifier::external_body]
fn bump_alloc_str<'a>(bump: &'a Bump, text: &str) -> (placed: &'a str)
    ensures
        placed@ == text@,
{
    bump.alloc_str(text)
}

impl Arena {
    pub fn new() -> Self {
        Arena { bump: new_bump() }
    }

    /// Places `value` in the arena.
    pub fn place<T>(&self, value: T) -> (placed: &T)
        ensures
            *placed == value,
    {
        bump_alloc(&self.bump, value)
    }

    /// Copies `items` into the arena.
    pub fn place_slice<'a, T: Copy>(&'a self, items: &Vec<T>) -> (placed: &'a [T])
        ensures
            placed@ == items@,
            placed == slice_of::<T>(items@),
    {
        let placed = bump_alloc_slice_copy(&self.bump, items.as_slice());
        proof {
            lemma_slice_of(placed);
        }
        placed
    }

    /// Copies `text` into the arena.
    pub fn place_str<'a>(&'a self, text: &str) -> (placed: &'a str)
        ensures
            placed@ == text@,
    {
        bump_alloc_str(&self.bump, text)
    }
}

/// Owns the text of every loaded source file, so that parsed trees can borrow from it.
pub struct SourceArena {
    texts: Arena,
}

impl SourceArena {
    pub fn new() -> Self {
        SourceArena { texts: Arena::new() }
    }

    /// Stores `text` and returns a reference to the stored copy.
    pub fn store<'a>(&'a self, text: String) -> (stored: &'a str)
        ensures
            stored@ == text@,
    {
        self.texts.place_str(text.as_str())
    }
}

} // verus!
