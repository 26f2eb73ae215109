//! Interning of fixed-size array types.

use crate::hir::table::{array_key, get_pair, lemma_array_key_injective, lookup};
use crate::hir::tree::ArrayType;
use crate::hir::types::{ArrayId, Type};
use std::collections::HashMap;
use vstd::prelude::*;

verus! {

broadcast use vstd::std_specs::hash::group_hash_axioms;

/// A deduplicating interner for fixed-size array types
///
/// Equal `(element, len)` pairs always yield the same [`ArrayId`], keeping [`Type`] equality
/// sound. An inferred element is never cached: its variable is meaningful only within the body
/// that minted it, so a fresh id keeps bodies from aliasing each other.
pub struct ArrayTable {
    types: Vec<ArrayType>,
    cache: HashMap<u128, ArrayId>,
}

/// The array types in the order of their ids, and the ids of those that are shared.
#[verifier::ext_equal]
pub ghost struct Arrays {
    pub types: Seq<ArrayType>,
    pub cache: Map<u128, ArrayId>,
}

impl View for ArrayTable {
    type V = Arrays;

    closed spec fn view(&self) -> Arrays {
        Arrays { types: self.types@, cache: self.cache@ }
    }
}

impl Arrays {
    pub open spec fn empty() -> Arrays {
        Arrays { types: Seq::empty(), cache: Map::empty() }
    }

    /// Interns `[element; len]`.
    pub open spec fn intern(self, element: Type, len: u32) -> (Arrays, ArrayId) {
        match (element.is_infer(), lookup(self.cache, array_key(element, len))) {
            (false, Some(id)) => (self, id),
            (inferred, _) => {
                let id = ArrayId(self.types.len() as u32);
                (
                    Arrays {
                        types: self.types.push(ArrayType { element, len }),
                        cache: if inferred {
                            self.cache
                        } else {
                            self.cache.insert(array_key(element, len), id)
                        },
                    },
                    id,
                )
            },
        }
    }

    /// The array type with the given id.
    pub open spec fn find(self, id: ArrayId) -> Option<ArrayType> {
        if id.0 < self.types.len() {
            Some(self.types[id.0 as int])
        } else {
            None
        }
    }

    /// Pins the element of an inferred array.
    pub open spec fn resolve(self, id: ArrayId, element: Type) -> Arrays {
        if id.0 < self.types.len() {
            let len = self.types[id.0 as int].len;
            Arrays { types: self.types.update(id.0 as int, ArrayType { element, len }), ..self }
        } else {
            self
        }
    }

    /// Every shared id stands for the type it is shared for.
    pub open spec fn wf(self) -> bool {
        &&& self.types.len() <= u32::MAX
        &&& forall|element: Type, len: u32|
            self.cache.contains_key(#[trigger] array_key(element, len)) ==> {
                let id = self.cache[array_key(element, len)];
                id.0 < self.types.len() && self.types[id.0 as int] == (ArrayType { element, len })
            }
    }

    /// No shared id is `id`.
    pub open spec fn private(self, id: ArrayId) -> bool {
        forall|element: Type, len: u32|
            self.cache.contains_key(#[trigger] array_key(element, len))
                ==> self.cache[array_key(element, len)] != id
    }
}

/// Interning gives an id that stands for the interned type, and keeps all earlier ids.
pub proof fn lemma_intern(arrays: Arrays, element: Type, len: u32, other: ArrayId)
    requires
        arrays.wf(),
        arrays.types.len() < u32::MAX,
    ensures
        arrays.intern(element, len).0.wf(),
        arrays.intern(element, len).0.find(arrays.intern(element, len).1) == Some(
            ArrayType { element, len },
        ),
        arrays.find(other) is Some ==> arrays.intern(element, len).0.find(other) == arrays.find(
            other,
        ),
{
    let after = arrays.intern(element, len).0;
    assert forall|e: Type, l: u32|
        after.cache.contains_key(#[trigger] array_key(e, l)) implies ({
        let id = after.cache[array_key(e, l)];
        id.0 < after.types.len() && after.types[id.0 as int] == (ArrayType { element: e, len: l })
    }) by {
        lemma_array_key_injective(e, l, element, len);
        if arrays.cache.contains_key(array_key(e, l)) {
        }
    }
}

/// A concrete array type interned twice has one id.
pub proof fn lemma_intern_twice(arrays: Arrays, element: Type, len: u32)
    requires
        !element.is_infer(),
    ensures
        ({
            let (once, id) = arrays.intern(element, len);
            once.intern(element, len) == (once, id)
        }),
{
}

/// An inferred element always gets an id of its own.
pub proof fn lemma_intern_inferred(arrays: Arrays, element: Type, len: u32)
    requires
        arrays.wf(),
        arrays.types.len() < u32::MAX,
        element.is_infer(),
    ensures
        arrays.find(arrays.intern(element, len).1) is None,
        arrays.intern(element, len).0.private(arrays.intern(element, len).1),
{
}

/// Pinning the element of a private array keeps every shared id sound.
pub proof fn lemma_resolve(arrays: Arrays, id: ArrayId, element: Type)
    requires
        arrays.wf(),
        arrays.private(id),
    ensures
        arrays.resolve(id, element).wf(),
{
}

impl ArrayTable {
    pub fn new() -> (table: Self)
        ensures
            table@ == Arrays::empty(),
    {
        ArrayTable { types: Vec::new(), cache: HashMap::new() }
    }

    /// Interns `[element; len]`, reusing the existing id when the type is already known.
    pub fn intern(&mut self, element: Type, len: u32) -> (id: ArrayId)
        ensures
            (final(self)@, id) == old(self)@.intern(element, len),
    {
        let inferred = element.is_infer();
        let key: u128 = array_key(element, len);
        if !inferred {
            match get_pair(&self.cache, key) {
                Some(id) => {
                    return id;
                },
                None => {},
            }
        }
        let id = ArrayId(#[verifier::truncate] (self.types.len() as u32));
        self.types.push(ArrayType { element, len });
        if !inferred {
            self.cache.insert(key, id);
        }
        id
    }

    pub fn get(&self, id: ArrayId) -> (array: ArrayType)
        requires
            self@.find(id) is Some,
        ensures
            Some(array) == self@.find(id),
    {
        self.types[id.0 as usize]
    }

    /// How many array types there are.
    pub fn len(&self) -> (len: usize)
        ensures
            len == self@.types.len(),
    {
        self.types.len()
    }

    /// The array type with the given id, if there is one.
    pub fn find(&self, id: ArrayId) -> (array: Option<ArrayType>)
        ensures
            array == self@.find(id),
    {
        let index: usize = id.0 as usize;
        if index < self.types.len() {
            Some(self.types[index])
        } else {
            None
        }
    }

    /// Pins the element of an inferred array once its variable is resolved.
    ///
    /// Meant only for inferred arrays, which belong to a single body.
    pub fn resolve(&mut self, id: ArrayId, element: Type)
        ensures
            final(self)@ == old(self)@.resolve(id, element),
    {
        let index: usize = id.0 as usize;
        if index < self.types.len() {
            let len: u32 = self.types[index].len;
            self.types.set(index, ArrayType { element, len });
        }
    }

    /// All array types in the order of their ids.
    pub fn snapshot(&self) -> (types: Vec<ArrayType>)
        ensures
            types@ == self@.types,
    {
        let mut types: Vec<ArrayType> = Vec::new();
        let mut i: usize = 0;
        while i < self.types.len()
            invariant
                i <= self.types@.len(),
                types@ == self.types@.take(i as int),
            decreases self.types@.len() - i,
        {
            types.push(self.types[i]);
            i += 1;
            assert(self.types@.take(i as int) =~= self.types@.take(i - 1).push(self.types@[i - 1]));
        }
        assert(self.types@.take(i as int) =~= self.types@);
        types
    }
}

} // verus!
