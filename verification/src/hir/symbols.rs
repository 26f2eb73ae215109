//! Interned identifiers and the canonical names of items.

use crate::arena::Arena;
use crate::text::{chars_of, push_text};
use lasso::{Key, LargeSpur, Rodeo};
use std::collections::hash_map::RandomState;
use vstd::prelude::*;
use vstd::string::StringExecFns;

verus! {

/// `lasso::Rodeo`, a string interner that numbers its strings from zero.
#[verifier::external_type_specification]
#[verifier::external_body]
#[verifier::reject_recursive_types(K)]
#[verifier::reject_recursive_types(S)]
pub struct ExRodeo<K, S>(Rodeo<K, S>);

#[verifier::external_type_specification]
#[verifier::external_body]
pub struct ExLargeSpur(LargeSpur);

/// The strings of an interner, in the order in which they came.
pub uninterp spec fn interned(table: Rodeo<LargeSpur, RandomState>) -> Seq<Seq<char>>;

/// A stable number for an interned string.
#[derive(Debug, Clone, Copy, PartialEq, Eq, Structural, Hash)]
pub struct SymbolId(pub usize);

/// The names after interning `name`, and the number it has in them.
pub open spec fn intern(names: Seq<Seq<char>>, name: Seq<char>) -> (Seq<Seq<char>>, SymbolId) {
    if names.contains(name) {
        (names, SymbolId(names.index_of(name) as usize))
    } else {
        (names.push(name), SymbolId(names.len() as usize))
    }
}

/// The number of an interned name.
pub open spec fn symbol_of(names: Seq<Seq<char>>, name: Seq<char>) -> Option<SymbolId> {
    if names.contains(name) {
        Some(SymbolId(names.index_of(name) as usize))
    } else {
        None
    }
}

/// The name with the given number, or nothing at all for a number not handed out.
pub open spec fn name_of(names: Seq<Seq<char>>, id: SymbolId) -> Seq<char> {
    if id.0 < names.len() {
        names[id.0 as int]
    } else {
        Seq::empty()
    }
}

/// `lasso::Rodeo::new`: an interner without strings.
#[verifier::external_body]
fn new_rodeo() -> (table: Rodeo<LargeSpur, RandomState>)
    ensures
        interned(table) == Seq::<Seq<char>>::empty(),
{
    Rodeo::new()
}

/// `lasso::Rodeo::get_or_intern`: the number of `text`, which becomes the last string if it is new.
///
/// The key of a string is its position among the strings. Keys are as wide as a pointer, so
/// memory runs out before they do.
#[verifier::external_body]
fn get_or_intern(table: &mut Rodeo<LargeSpur, RandomState>, text: &str) -> (key: usize)
    ensures
        interned(*final(table)) == intern(interned(*old(table)), text@).0,
        SymbolId(key) == intern(interned(*old(table)), text@).1,
        key < interned(*final(table)).len() <= usize::MAX,
        interned(*final(table))[key as int] == text@,
        interned(*final(table)).no_duplicates(),
{
    table.get_or_intern(text).into_usize()
}

/// `lasso::Rodeo::get`: the number of `text` if it is among the strings.
#[verifier::external_body]
fn lookup(table: &Rodeo<LargeSpur, RandomState>, text: &str) -> (key: Option<usize>)
    ensures
        match key {
            Some(key) => {
                &&& symbol_of(interned(*table), text@) == Some(SymbolId(key))
                &&& key < interned(*table).len()
                &&& interned(*table)[key as int] == text@
            },
            None => symbol_of(interned(*table), text@) is None,
        },
{
    table.get(text).map(|key| key.into_usize())
}

/// `lasso::Rodeo::try_resolve`: the string with the given number, if there is one.
#[verifier::external_body]
fn try_resolve(table: &Rodeo<LargeSpur, RandomState>, key: usize) -> (text: Option<&str>)
    ensures
        match text {
            Some(text) => key < interned(*table).len() && text@ == interned(*table)[key as int],
            None => key >= interned(*table).len(),
        },
{
    LargeSpur::try_from_usize(key).and_then(|key| table.try_resolve(&key))
}

/// `lasso::Rodeo::len`: how many strings there are.
#[verifier::external_body]
fn rodeo_len(table: &Rodeo<LargeSpur, RandomState>) -> (len: usize)
    ensures
        len == interned(*table).len(),
{
    table.len()
}

/// Interns all identifiers met during compilation and maps them to stable [`SymbolId`]s.
pub struct SymbolTable {
    interner: Rodeo<LargeSpur, RandomState>,
}

impl View for SymbolTable {
    type V = Seq<Seq<char>>;

    closed spec fn view(&self) -> Seq<Seq<char>> {
        interned(self.interner)
    }
}

impl SymbolTable {
    pub fn new() -> (table: Self)
        ensures
            table@ == Seq::<Seq<char>>::empty(),
    {
        SymbolTable { interner: new_rodeo() }
    }

    pub fn insert(&mut self, name: &str) -> (id: SymbolId)
        ensures
            (final(self)@, id) == intern(old(self)@, name@),
            id.0 < final(self)@.len(),
            final(self)@[id.0 as int] == name@,
    {
        SymbolId(get_or_intern(&mut self.interner, name))
    }

    pub fn get_id(&self, name: &str) -> (id: Option<SymbolId>)
        ensures
            id == symbol_of(self@, name@),
            id matches Some(id) ==> id.0 < self@.len() && self@[id.0 as int] == name@,
    {
        match lookup(&self.interner, name) {
            Some(key) => Some(SymbolId(key)),
            None => None,
        }
    }

    pub fn get(&self, id: SymbolId) -> (name: &str)
        requires
            id.0 < self@.len(),
        ensures
            name@ == self@[id.0 as int],
    {
        self.name(id)
    }

    /// The name with the given number, empty for a number not handed out.
    pub fn name(&self, id: SymbolId) -> (name: &str)
        ensures
            name@ == name_of(self@, id),
    {
        match try_resolve(&self.interner, id.0) {
            Some(name) => name,
            None => {
                proof {
                    reveal_strlit("");
                    assert(""@ =~= Seq::<char>::empty());
                }
                ""
            },
        }
    }

    /// All names, in the order of their numbers.
    pub fn into_symbols(self) -> (names: Vec<String>)
        ensures
            names@.len() == self@.len(),
            forall|i: int| 0 <= i < names@.len() ==> (#[trigger] names@[i])@ == self@[i],
    {
        let len: usize = rodeo_len(&self.interner);
        let mut names: Vec<String> = Vec::new();
        let mut i: usize = 0;
        while i < len
            invariant
                i <= len,
                len == self@.len(),
                names@.len() == i,
                forall|j: int| 0 <= j < i ==> (#[trigger] names@[j])@ == self@[j],
            decreases len - i,
        {
            names.push(self.name(SymbolId(i)).to_owned());
            i += 1;
        }
        names
    }
}

/// A name that was interned is found again under its number, and interning it once more
/// changes nothing.
pub proof fn lemma_intern_stable(names: Seq<Seq<char>>, name: Seq<char>)
    requires
        names.no_duplicates(),
        names.len() < usize::MAX,
    ensures
        ({
            let (after, id) = intern(names, name);
            &&& name_of(after, id) == name
            &&& symbol_of(after, name) == Some(id)
            &&& intern(after, name) == (after, id)
            &&& after.no_duplicates()
        }),
{
    let (after, id) = intern(names, name);
    if names.contains(name) {
    } else {
        assert(after[names.len() as int] == name);
        assert(after.no_duplicates());
    }
}

/// Interning never renumbers: every name known before keeps its number.
pub proof fn lemma_intern_keeps(names: Seq<Seq<char>>, name: Seq<char>, id: SymbolId)
    requires
        id.0 < names.len(),
    ensures
        id.0 < intern(names, name).0.len(),
        name_of(intern(names, name).0, id) == name_of(names, id),
{
}

/// Different names get different numbers.
pub proof fn lemma_intern_injective(names: Seq<Seq<char>>, a: Seq<char>, b: Seq<char>)
    requires
        names.no_duplicates(),
        names.len() < usize::MAX - 1,
        a != b,
    ensures
        ({
            let (after, ia) = intern(names, a);
            let (_, ib) = intern(after, b);
            ia != ib
        }),
{
    let (after, ia) = intern(names, a);
    lemma_intern_stable(names, a);
    lemma_intern_stable(after, b);
    if names.contains(a) {
    } else {
        assert(after[names.len() as int] == a);
    }
}

/// Constructs the canonical fully-qualified names of items:
/// - `module::name`
/// - `module::Type::name`
/// - `module::Type::Interface::name`
#[derive(Debug, Clone, Copy)]
pub struct Mangler<'m> {
    pub module: &'m str,
}

/// `scope::name`
pub open spec fn join(scope: Seq<char>, name: Seq<char>) -> Seq<char> {
    scope + "::"@ + name
}

impl<'m> Mangler<'m> {
    pub fn new(module: &'m str) -> (mangler: Self)
        ensures
            mangler.module == module,
    {
        Mangler { module }
    }

    pub fn default() -> (mangler: Self)
        ensures
            mangler.module@ == "nyx"@,
    {
        Mangler::new("nyx")
    }

    pub fn item(&self, name: &str) -> (mangled: String)
        ensures
            mangled@ == join(self.module@, name@),
    {
        joined(self.module, name)
    }

    pub fn scoped_item(&self, scope: &str, name: &str) -> (mangled: String)
        ensures
            mangled@ == join(join(self.module@, scope@), name@),
    {
        let outer = joined(self.module, scope);
        joined(outer.as_str(), name)
    }

    pub fn interface_item(&self, scope: &str, interface: &str, name: &str) -> (mangled: String)
        ensures
            mangled@ == join(join(join(self.module@, scope@), interface@), name@),
    {
        let outer = self.scoped_item(scope, interface);
        joined(outer.as_str(), name)
    }
}

fn joined(scope: &str, name: &str) -> (text: String)
    ensures
        text@ == join(scope@, name@),
{
    let mut text = scope.to_owned();
    push_text(&mut text, "::");
    push_text(&mut text, name);
    text
}

/// `scope::name`, stored in the arena.
pub fn qualified<'a>(arena: &'a Arena, scope: &str, name: &str) -> (text: &'a str)
    ensures
        text@ == join(scope@, name@),
{
    arena.place_str(joined(scope, name).as_str())
}

/// Two names in one scope are the same item only if they are the same name.
pub proof fn lemma_join_injective(scope: Seq<char>, a: Seq<char>, b: Seq<char>)
    ensures
        join(scope, a) == join(scope, b) <==> a == b,
{
    let n = (scope + "::"@).len() as int;
    assert(join(scope, a).skip(n) =~= a);
    assert(join(scope, b).skip(n) =~= b);
}

/// The label of an item in assembly: every `::` becomes a `.`.
pub open spec fn assembly_label_of(name: Seq<char>) -> Seq<char>
    decreases name.len(),
{
    if name.len() == 0 {
        name
    } else if name.len() >= 2 && name[0] == ':' && name[1] == ':' {
        seq!['.'] + assembly_label_of(name.skip(2))
    } else {
        seq![name[0]] + assembly_label_of(name.skip(1))
    }
}

/// The label of an item in assembly.
pub fn assembly_label(name: &str) -> (label: String)
    ensures
        label@ == assembly_label_of(name@),
{
    let chars = chars_of(name);
    let ghost all = chars@;
    let mut label = String::new();
    let mut i: usize = 0;
    assert(all.skip(0) =~= all);
    while i < chars.len()
        invariant
            i <= chars@.len(),
            all == chars@,
            label@ + assembly_label_of(all.skip(i as int)) == assembly_label_of(all),
        decreases chars@.len() - i,
    {
        let ghost before = label@;
        if i + 1 < chars.len() && chars[i] == ':' && chars[i + 1] == ':' {
            label.push('.');
            assert(all.skip(i as int).skip(2) =~= all.skip(i + 2));
            assert(label@ + assembly_label_of(all.skip(i + 2)) =~= before + (seq!['.']
                + assembly_label_of(all.skip(i + 2))));
            i += 2;
        } else {
            label.push(chars[i]);
            assert(all.skip(i as int).skip(1) =~= all.skip(i + 1));
            assert(label@ + assembly_label_of(all.skip(i + 1)) =~= before + (
            seq![all[i as int]] + assembly_label_of(all.skip(i + 1))));
            i += 1;
        }
    }
    assert(label@ =~= label@ + assembly_label_of(all.skip(i as int)));
    label
}

} // verus!
