//! Lookup tables keyed by numbers.

use crate::hir::symbols::SymbolId;
use crate::hir::types::Type;
use std::collections::HashMap;
use vstd::prelude::*;

verus! {

broadcast use vstd::std_specs::hash::group_hash_axioms;

/// The value stored under `key`.
pub open spec fn lookup<K, V>(map: Map<K, V>, key: K) -> Option<V> {
    if map.contains_key(key) {
        Some(map[key])
    } else {
        None
    }
}

/// The entry of a symbol.
pub fn get<V: Copy>(map: &HashMap<usize, V>, key: SymbolId) -> (value: Option<V>)
    ensures
        value == lookup(map@, key.0),
{
    match map.get(&key.0) {
        Some(value) => Some(*value),
        None => None,
    }
}

/// The entry of an id.
pub fn get_id<V: Copy>(map: &HashMap<u32, V>, key: u32) -> (value: Option<V>)
    ensures
        value == lookup(map@, key),
{
    match map.get(&key) {
        Some(value) => Some(*value),
        None => None,
    }
}

/// The entry of a pair.
pub fn get_pair<V: Copy>(map: &HashMap<u128, V>, key: u128) -> (value: Option<V>)
    ensures
        value == lookup(map@, key),
{
    match map.get(&key) {
        Some(value) => Some(*value),
        None => None,
    }
}

/// The key of something named that belongs to a type.
pub open spec fn member_key_spec(typ: Type, name: SymbolId) -> u128 {
    (typ.bits() as int * 0x1_0000_0000_0000_0000 + name.0) as u128
}

#[verifier::when_used_as_spec(member_key_spec)]
pub fn member_key(typ: Type, name: SymbolId) -> (key: u128)
    ensures
        key == member_key_spec(typ, name),
{
    (typ.bits() as u128) * 0x1_0000_0000_0000_0000 + (name.0 as u128)
}

/// The key of something named inside something named.
pub open spec fn nested_key_spec(outer: SymbolId, name: SymbolId) -> u128 {
    (outer.0 as int * 0x1_0000_0000_0000_0000 + name.0) as u128
}

#[verifier::when_used_as_spec(nested_key_spec)]
pub fn nested_key(outer: SymbolId, name: SymbolId) -> (key: u128)
    ensures
        key == nested_key_spec(outer, name),
{
    (outer.0 as u128) * 0x1_0000_0000_0000_0000 + (name.0 as u128)
}

/// The key of an array type.
pub open spec fn array_key_spec(element: Type, len: u32) -> u128 {
    (element.bits() as int * 0x1_0000_0000 + len) as u128
}

#[verifier::when_used_as_spec(array_key_spec)]
pub fn array_key(element: Type, len: u32) -> (key: u128)
    ensures
        key == array_key_spec(element, len),
{
    (element.bits() as u128) * 0x1_0000_0000 + (len as u128)
}

/// Different members have different keys.
pub proof fn lemma_member_key_injective(t: Type, a: SymbolId, u: Type, b: SymbolId)
    ensures
        member_key(t, a) == member_key(u, b) <==> t == u && a == b,
{
    t.lemma_bits_injective(u);
}

/// Different nested names have different keys.
pub proof fn lemma_nested_key_injective(s: SymbolId, a: SymbolId, t: SymbolId, b: SymbolId)
    ensures
        nested_key(s, a) == nested_key(t, b) <==> s == t && a == b,
{
}

/// Different array types have different keys.
pub proof fn lemma_array_key_injective(t: Type, m: u32, u: Type, n: u32)
    ensures
        array_key(t, m) == array_key(u, n) <==> t == u && m == n,
{
    t.lemma_bits_injective(u);
}

} // verus!
