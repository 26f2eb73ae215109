//! The single accumulated namespace for a compilation.

use crate::arena::Arena;
use crate::ast;
use crate::ast::{GenericBound, Span};
use crate::hir::arrays::{ArrayTable, Arrays};
use crate::hir::diagnostics::Diagnostics;
use crate::hir::error::{seen, HirError, HirErrorKind};
use crate::hir::symbols::{intern, join, name_of, symbol_of, Mangler, SymbolId, SymbolTable};
use crate::hir::table::{get, get_id, get_pair, lookup, member_key};
use crate::hir::tree::{
    const_tree, ConstTree, Constant, Enum, FunctionId, FunctionKind, Method, Struct,
};
use crate::hir::types::{EnumId, StructId, Type, TypeKind};
use crate::text::text_eq;
use std::collections::HashMap;
use vstd::prelude::*;

verus! {

broadcast use vstd::std_specs::hash::group_hash_axioms;

/// The result of an analysis step as contracts see it.
pub type Outcome<T> = Result<T, HirError<Seq<char>>>;

/// Concrete types for generic parameter names; the last entry of a name counts.
pub type GenericEnv<'hir> = &'hir [(&'hir str, Type)];

#[derive(Debug, Clone, Copy)]
pub struct FunctionSignature<'hir> {
    pub name: SymbolId,
    pub params: &'hir [Type],
    pub return_type: Type,
    pub kind: FunctionKind,
    pub is_const: bool,
}

#[derive(Debug, Clone, Copy)]
pub struct InterfaceSignature<'hir> {
    pub name: SymbolId,
    pub superinterfaces: &'hir [SymbolId],
    pub methods: &'hir [InterfaceMethodSignature<'hir>],
    pub generic_params: &'hir [SymbolId],
    /// The generic parameters as declared
    pub generics: &'hir Vec<GenericBound<'hir>>,
}

#[derive(Debug, Clone, Copy)]
pub struct InterfaceMethodSignature<'hir> {
    pub name: SymbolId,
    pub params: &'hir [Type],
    pub return_type: Type,
    pub has_receiver: bool,
    pub receiver_mut: bool,
}

/// The single accumulated namespace for a compilation
///
/// Grows as modules are loaded: structs and function signatures are assigned increasing ids
/// across all modules.
pub struct Scope<'hir> {
    pub arena: &'hir Arena,
    pub mangler: Mangler<'hir>,
    pub symbols: SymbolTable,
    pub signatures: Vec<FunctionSignature<'hir>>,
    pub functions: HashMap<usize, FunctionId>,
    pub methods: HashMap<u128, FunctionId>,
    pub structs: Vec<Struct<'hir>>,
    pub struct_map: HashMap<usize, StructId>,
    pub enums: Vec<Enum<'hir>>,
    pub enum_map: HashMap<usize, EnumId>,
    pub arrays: ArrayTable,
    pub enum_variants: HashMap<u128, (EnumId, i64)>,
    pub interfaces: HashMap<usize, InterfaceSignature<'hir>>,
    pub interface_impls: Vec<(Type, SymbolId)>,
    pub constants: Vec<&'hir Constant<'hir>>,
    /// Rendered documentation per item, with its declaration's span
    pub docs: Vec<(Span, &'hir str)>,
    pub generic_structs: HashMap<usize, &'hir ast::Struct<'hir>>,
    pub generic_enums: HashMap<usize, &'hir ast::Enum<'hir>>,
    /// Generic free-function templates by the id of their open signature
    pub generic_fns: HashMap<u32, &'hir ast::Function<'hir>>,
    pub generic_fn_envs: HashMap<u32, GenericEnv<'hir>>,
    pub generic_impls: Vec<&'hir ast::Impl<'hir>>,
    pub specialized_slices: Vec<Type>,
    /// Whether the module at hand belongs to std; gates intrinsics and `syscall`
    pub in_std: bool,
    /// Whether errors are recorded and worked around instead of ending the pass
    pub recover: bool,
    pub diagnostics: Diagnostics<'hir>,
}

/// A namespace as contracts see it.
pub ghost struct Names<'hir> {
    pub module: Seq<char>,
    pub symbols: Seq<Seq<char>>,
    pub signatures: Seq<FunctionSignature<'hir>>,
    pub functions: Map<usize, FunctionId>,
    pub methods: Map<u128, FunctionId>,
    pub structs: Seq<Struct<'hir>>,
    pub struct_map: Map<usize, StructId>,
    pub enums: Seq<Enum<'hir>>,
    pub enum_map: Map<usize, EnumId>,
    pub arrays: Arrays,
    pub enum_variants: Map<u128, (EnumId, i64)>,
    pub interfaces: Map<usize, InterfaceSignature<'hir>>,
    pub interface_impls: Seq<(Type, SymbolId)>,
    pub constants: Seq<ConstTree<'hir>>,
    pub docs: Seq<(Span, Seq<char>)>,
    pub generic_structs: Map<usize, &'hir ast::Struct<'hir>>,
    pub generic_enums: Map<usize, &'hir ast::Enum<'hir>>,
    pub generic_fns: Map<u32, &'hir ast::Function<'hir>>,
    pub generic_fn_envs: Map<u32, GenericEnv<'hir>>,
    pub generic_impls: Seq<&'hir ast::Impl<'hir>>,
    pub specialized_slices: Seq<Type>,
    pub in_std: bool,
    pub recover: bool,
    pub errors: Seq<HirError<Seq<char>>>,
}

pub open spec fn const_trees<'hir>(items: Seq<&'hir Constant<'hir>>) -> Seq<ConstTree<'hir>> {
    Seq::new(items.len(), |i: int| const_tree(*items[i]))
}

pub open spec fn doc_views<'hir>(items: Seq<(Span, &'hir str)>) -> Seq<(Span, Seq<char>)> {
    Seq::new(items.len(), |i: int| (items[i].0, items[i].1@))
}

impl<'hir> View for Scope<'hir> {
    type V = Names<'hir>;

    open spec fn view(&self) -> Names<'hir> {
        Names {
            module: self.mangler.module@,
            symbols: self.symbols@,
            signatures: self.signatures@,
            functions: self.functions@,
            methods: self.methods@,
            structs: self.structs@,
            struct_map: self.struct_map@,
            enums: self.enums@,
            enum_map: self.enum_map@,
            arrays: self.arrays@,
            enum_variants: self.enum_variants@,
            interfaces: self.interfaces@,
            interface_impls: self.interface_impls@,
            constants: const_trees(self.constants@),
            docs: doc_views(self.docs@),
            generic_structs: self.generic_structs@,
            generic_enums: self.generic_enums@,
            generic_fns: self.generic_fns@,
            generic_fn_envs: self.generic_fn_envs@,
            generic_impls: self.generic_impls@,
            specialized_slices: self.specialized_slices@,
            in_std: self.in_std,
            recover: self.recover,
            errors: self.diagnostics@,
        }
    }
}

/// The concrete type of a generic parameter.
pub open spec fn env_get<'a>(env: Seq<(&'a str, Type)>, name: Seq<char>) -> Option<Type>
    decreases env.len(),
{
    if env.len() == 0 {
        None
    } else if env.last().0@ == name {
        Some(env.last().1)
    } else {
        env_get(env.drop_last(), name)
    }
}

pub fn find_in_env<'a>(env: &[(&'a str, Type)], name: &str) -> (typ: Option<Type>)
    ensures
        typ == env_get(env@, name@),
{
    let mut i: usize = env.len();
    assert(env@.take(i as int) =~= env@);
    while i > 0
        invariant
            i <= env@.len(),
            env_get(env@, name@) == env_get(env@.take(i as int), name@),
        decreases i,
    {
        i -= 1;
        assert(env@.take(i + 1).drop_last() =~= env@.take(i as int));
        if text_eq(env[i].0, name) {
            return Some(env[i].1);
        }
    }
    None
}

pub open spec fn empty_names<'hir>(module: Seq<char>) -> Names<'hir> {
    Names {
        module,
        symbols: Seq::empty(),
        signatures: Seq::empty(),
        functions: Map::empty(),
        methods: Map::empty(),
        structs: Seq::empty(),
        struct_map: Map::empty(),
        enums: Seq::empty(),
        enum_map: Map::empty(),
        arrays: Arrays::empty(),
        enum_variants: Map::empty(),
        interfaces: Map::empty(),
        interface_impls: Seq::empty(),
        constants: Seq::empty(),
        docs: Seq::empty(),
        generic_structs: Map::empty(),
        generic_enums: Map::empty(),
        generic_fns: Map::empty(),
        generic_fn_envs: Map::empty(),
        generic_impls: Seq::empty(),
        specialized_slices: Seq::empty(),
        in_std: false,
        recover: false,
        errors: Seq::empty(),
    }
}

impl<'hir> Names<'hir> {
    /// Interns a name.
    pub open spec fn insert(self, name: Seq<char>) -> (Names<'hir>, SymbolId) {
        (Names { symbols: intern(self.symbols, name).0, ..self }, intern(self.symbols, name).1)
    }

    pub open spec fn get_id(self, name: Seq<char>) -> Option<SymbolId> {
        symbol_of(self.symbols, name)
    }

    pub open spec fn name(self, id: SymbolId) -> Seq<char> {
        name_of(self.symbols, id)
    }

    pub open spec fn emit(self, error: HirError<Seq<char>>) -> Names<'hir> {
        Names { errors: self.errors.push(error), ..self }
    }

    /// Records `error` and goes on with a poisoned type, or fails with it outside recovery.
    pub open spec fn poison(self, error: HirError<Seq<char>>) -> (Names<'hir>, Outcome<Type>) {
        if self.recover {
            (self.emit(error), Ok(Type::new(TypeKind::Error)))
        } else {
            (self, Err(error))
        }
    }

    /// Records `error` and goes on, or fails with it outside recovery.
    pub open spec fn soft(self, error: HirError<Seq<char>>) -> (Names<'hir>, Outcome<()>) {
        if self.recover {
            (self.emit(error), Ok(()))
        } else {
            (self, Err(error))
        }
    }

    /// In recovery no error ends the work: it is recorded, and what it concerns is poisoned.
    pub proof fn lemma_recovers(self, error: HirError<Seq<char>>)
        requires
            self.recover,
        ensures
            self.soft(error) == (self.emit(error), Outcome::<()>::Ok(())),
            self.poison(error).0 == self.emit(error),
            self.poison(error).1 matches Ok(typ) && typ.is_error(),
            self.emit(error).errors == self.errors.push(error),
            self.emit(error).recover,
    {
        Type::lemma_round_trip(TypeKind::Error);
    }

    /// The struct or enum with the given name.
    pub open spec fn nominal_type(self, symbol: SymbolId) -> Option<Type> {
        match lookup(self.struct_map, symbol.0) {
            Some(id) => Some(Type::structure(id)),
            None => match lookup(self.enum_map, symbol.0) {
                Some(id) => Some(Type::enumerable(id)),
                None => None,
            },
        }
    }

    /// The primitive, struct or enum with the given name.
    pub open spec fn lookup_named_type(self, name: Seq<char>) -> Option<Type> {
        match resolve_primitive_type_spec(name) {
            Some(typ) => Some(typ),
            None => match self.get_id(name) {
                Some(symbol) => self.nominal_type(symbol),
                None => None,
            },
        }
    }

    pub open spec fn function_named(self, mangled: Seq<char>) -> Option<FunctionId> {
        match self.get_id(mangled) {
            Some(symbol) => lookup(self.functions, symbol.0),
            None => None,
        }
    }

    pub open spec fn item(self, name: Seq<char>) -> Seq<char> {
        join(self.module, name)
    }

    pub open spec fn scoped_item(self, scope: Seq<char>, name: Seq<char>) -> Seq<char> {
        join(join(self.module, scope), name)
    }

    pub open spec fn interface_item(
        self,
        scope: Seq<char>,
        interface: Seq<char>,
        name: Seq<char>,
    ) -> Seq<char> {
        join(join(join(self.module, scope), interface), name)
    }

    /// The function that an interface of `receiver`, from position `at` on, provides.
    pub open spec fn interface_function(
        self,
        receiver: Type,
        qualifier: Seq<char>,
        name: Seq<char>,
        at: int,
    ) -> Option<FunctionId>
        decreases self.interface_impls.len() - at,
    {
        if at < 0 || at >= self.interface_impls.len() {
            None
        } else {
            let (typ, interface) = self.interface_impls[at];
            let found = if typ == receiver {
                self.function_named(self.interface_item(qualifier, self.name(interface), name))
            } else {
                None
            };
            match found {
                Some(id) => Some(id),
                None => self.interface_function(receiver, qualifier, name, at + 1),
            }
        }
    }

    /// The function `qualifier::name`, directly or through an interface of the type.
    pub open spec fn resolve_qualified_call(
        self,
        qualifier: Seq<char>,
        name: Seq<char>,
    ) -> Option<FunctionId> {
        match self.function_named(self.scoped_item(qualifier, name)) {
            Some(id) => Some(id),
            None => match self.lookup_named_type(qualifier) {
                Some(receiver) => self.interface_function(receiver, qualifier, name, 0),
                None => None,
            },
        }
    }

    pub open spec fn resolve_function_call(
        self,
        qualifier: Option<Seq<char>>,
        name: Seq<char>,
    ) -> Option<FunctionId> {
        let qualified = match qualifier {
            Some(qualifier) => self.resolve_qualified_call(qualifier, name),
            None => None,
        };
        match qualified {
            Some(id) => Some(id),
            None => self.function_named(self.item(name)),
        }
    }

    pub open spec fn push_signature(
        self,
        signature: FunctionSignature<'hir>,
    ) -> (Names<'hir>, FunctionId) {
        (
            Names { signatures: self.signatures.push(signature), ..self },
            FunctionId(self.signatures.len() as u32),
        )
    }

    /// The id of a declared function. `error` is what is wrong if there is none.
    pub open spec fn function_id(
        self,
        function: ast::Function,
        hint: Option<Seq<char>>,
        error: HirErrorKind<Seq<char>>,
    ) -> Outcome<FunctionId> {
        let impl_type = match function.impl_type {
            Some(name) => Some(name@),
            None => hint,
        };
        let found = match (function.receiver, impl_type) {
            (Some(_), Some(impl_type)) => match self.lookup_named_type(impl_type) {
                None => {
                    return_unknown_type(impl_type, function.span)
                },
                Some(receiver) => Ok(
                    match self.get_id(function.name@) {
                        Some(method) => lookup(self.methods, member_key(receiver, method)),
                        None => None,
                    },
                ),
            },
            (Some(_), None) => Ok(None),
            (None, Some(impl_type)) => Ok(self.resolve_qualified_call(impl_type, function.name@)),
            (None, None) => Ok(self.function_named(self.item(function.name@))),
        };
        match found {
            Err(unknown) => Err(unknown),
            Ok(Some(id)) => Ok(id),
            Ok(None) => Err(HirError::new(error, function.span)),
        }
    }

    /// Whether a function is a generic template that must not be lowered directly.
    pub open spec fn is_generic_function(self, function: ast::Function) -> bool {
        function.generics@.len() > 0 || match function.impl_type {
            Some(impl_type) => impl_type@ == "[]"@ || match self.get_id(impl_type@) {
                Some(symbol) => self.generic_enums.contains_key(symbol.0)
                    || self.generic_structs.contains_key(symbol.0),
                None => false,
            },
            None => false,
        }
    }

    pub open spec fn structure(self, id: StructId) -> Option<Struct<'hir>> {
        if id.0 < self.structs.len() {
            Some(self.structs[id.0 as int])
        } else {
            None
        }
    }

    pub open spec fn enumeration(self, id: EnumId) -> Option<Enum<'hir>> {
        if id.0 < self.enums.len() {
            Some(self.enums[id.0 as int])
        } else {
            None
        }
    }

    pub open spec fn signature(self, id: FunctionId) -> Option<FunctionSignature<'hir>> {
        if id.0 < self.signatures.len() {
            Some(self.signatures[id.0 as int])
        } else {
            None
        }
    }

    /// The constant with the given name; the last one added counts.
    pub open spec fn constant(self, symbol: SymbolId) -> Option<ConstTree<'hir>> {
        last_constant(self.constants, symbol)
    }
}

pub open spec fn return_unknown_type<T>(name: Seq<char>, span: Span) -> Outcome<T> {
    Err(HirError::new(HirErrorKind::UnknownType { name }, span))
}

pub open spec fn last_constant<'hir>(
    constants: Seq<ConstTree<'hir>>,
    symbol: SymbolId,
) -> Option<ConstTree<'hir>>
    decreases constants.len(),
{
    if constants.len() == 0 {
        None
    } else if constants.last().name == symbol {
        Some(constants.last())
    } else {
        last_constant(constants.drop_last(), symbol)
    }
}

fn last_named<'hir>(
    constants: &Vec<&'hir Constant<'hir>>,
    symbol: SymbolId,
) -> (constant: Option<&'hir Constant<'hir>>)
    ensures
        last_constant(const_trees(constants@), symbol) == (match constant {
            Some(constant) => Some(const_tree(*constant)),
            None => None,
        }),
{
    let mut i: usize = constants.len();
    let ghost all = const_trees(constants@);
    assert(all.take(i as int) =~= all);
    while i > 0
        invariant
            i <= constants@.len(),
            all == const_trees(constants@),
            last_constant(all, symbol) == last_constant(all.take(i as int), symbol),
        decreases i,
    {
        i -= 1;
        proof {
            assert(all.take(i + 1).drop_last() =~= all.take(i as int));
            assert(all.take(i + 1).last() == const_tree(*constants@[i as int]));
            assert(const_tree(*constants@[i as int]).name == constants@[i as int].name);
        }
        if constants[i].name == symbol {
            return Some(constants[i]);
        }
    }
    assert(all.take(0) =~= Seq::empty());
    None
}

/// The primitive type of the given name.
pub open spec fn resolve_primitive_type_spec(name: Seq<char>) -> Option<Type> {
    match ast::primitive_named(name) {
        Some(annotation) => Type::from_primitive_ast_spec(annotation),
        None => None,
    }
}

pub fn resolve_primitive_type(name: &str) -> (typ: Option<Type>)
    ensures
        typ == resolve_primitive_type_spec(name@),
{
    match ast::Type::primitive(name) {
        Some(annotation) => Type::from_primitive_ast(&annotation),
        None => None,
    }
}

impl<'hir> FunctionSignature<'hir> {
    #[verifier::allow_in_spec]
    pub fn has_receiver(&self) -> bool
        returns
            self.kind is Method,
    {
        match self.kind {
            FunctionKind::Method(_) => true,
            _ => false,
        }
    }

    /// The type of the receiver parameter.
    pub open spec fn receiver_type_spec(self) -> Option<Type> {
        if self.has_receiver() && self.params@.len() > 0 {
            Some(self.params@[0])
        } else {
            None
        }
    }

    pub fn receiver_type(&self) -> (typ: Option<Type>)
        ensures
            typ == self.receiver_type_spec(),
    {
        if self.has_receiver() && self.params.len() > 0 {
            Some(self.params[0])
        } else {
            None
        }
    }

    pub open spec fn receiver_mutable_spec(self) -> bool {
        match self.receiver_type_spec() {
            Some(typ) => match typ.kind() {
                TypeKind::Ref { mutable, to } => mutable,
                _ => false,
            },
            None => false,
        }
    }

    pub fn receiver_mutable(&self) -> (mutable: bool)
        ensures
            mutable == self.receiver_mutable_spec(),
    {
        match self.receiver_type() {
            Some(typ) => match typ.kind() {
                TypeKind::Ref { mutable, .. } => mutable,
                _ => false,
            },
            None => false,
        }
    }

    /// The parameters without the receiver.
    pub open spec fn explicit_params_spec(self) -> Seq<Type> {
        if self.receiver_type_spec() is Some {
            self.params@.skip(1)
        } else {
            self.params@
        }
    }

    pub fn explicit_params(&self) -> (params: &'hir [Type])
        ensures
            params@ == self.explicit_params_spec(),
    {
        if self.receiver_type().is_some() {
            vstd::slice::slice_subrange(self.params, 1, self.params.len())
        } else {
            self.params
        }
    }
}

impl<'hir> Scope<'hir> {
    pub fn new(arena: &'hir Arena) -> (scope: Self)
        ensures
            scope@ == empty_names::<'hir>("nyx"@),
    {
        let scope = Scope {
            arena,
            mangler: Mangler::default(),
            symbols: SymbolTable::new(),
            signatures: Vec::new(),
            functions: HashMap::new(),
            methods: HashMap::new(),
            structs: Vec::new(),
            struct_map: HashMap::new(),
            enums: Vec::new(),
            enum_map: HashMap::new(),
            arrays: ArrayTable::new(),
            enum_variants: HashMap::new(),
            interfaces: HashMap::new(),
            interface_impls: Vec::new(),
            constants: Vec::new(),
            docs: Vec::new(),
            generic_structs: HashMap::new(),
            generic_enums: HashMap::new(),
            generic_fns: HashMap::new(),
            generic_fn_envs: HashMap::new(),
            generic_impls: Vec::new(),
            specialized_slices: Vec::new(),
            in_std: false,
            recover: false,
            diagnostics: Diagnostics::new(),
        };
        assert(scope@.constants =~= Seq::empty());
        assert(scope@.docs =~= Seq::empty());
        scope
    }

    /// Interns a name.
    pub fn insert(&mut self, name: &str) -> (id: SymbolId)
        ensures
            (final(self)@, id) == old(self)@.insert(name@),
            final(self).arena == old(self).arena,
            final(self).mangler == old(self).mangler,
    {
        self.symbols.insert(name)
    }

    /// Records `error` and yields a poisoned type so analysis can go on, or fails with it when
    /// not in recovery mode.
    pub fn poison(&mut self, error: HirError<&'hir str>) -> (outcome: Result<
        Type,
        HirError<&'hir str>,
    >)
        ensures
            (final(self)@, seen(outcome)) == old(self)@.poison(error@),
            final(self).arena == old(self).arena,
    {
        if self.recover {
            Ok(Type::error(self.diagnostics.emit(error)))
        } else {
            Err(error)
        }
    }

    /// Records `error` and goes on, or fails with it when not in recovery mode.
    pub fn soft(&mut self, error: HirError<&'hir str>) -> (outcome: Result<
        (),
        HirError<&'hir str>,
    >)
        ensures
            (final(self)@, seen(outcome)) == old(self)@.soft(error@),
            final(self).arena == old(self).arena,
    {
        if self.recover {
            self.diagnostics.emit(error);
            Ok(())
        } else {
            Err(error)
        }
    }

    pub fn nominal_type(&self, symbol: SymbolId) -> (typ: Option<Type>)
        ensures
            typ == self@.nominal_type(symbol),
    {
        match get(&self.struct_map, symbol) {
            Some(id) => Some(Type::structure(id)),
            None => match get(&self.enum_map, symbol) {
                Some(id) => Some(Type::enumerable(id)),
                None => None,
            },
        }
    }

    pub fn lookup_named_type(&self, name: &str) -> (typ: Option<Type>)
        ensures
            typ == self@.lookup_named_type(name@),
    {
        match resolve_primitive_type(name) {
            Some(typ) => Some(typ),
            None => match self.symbols.get_id(name) {
                Some(symbol) => self.nominal_type(symbol),
                None => None,
            },
        }
    }

    /// The function with the given canonical name.
    pub fn resolve_function(&self, mangled: &str) -> (id: Option<FunctionId>)
        ensures
            id == self@.function_named(mangled@),
    {
        match self.symbols.get_id(mangled) {
            Some(symbol) => get(&self.functions, symbol),
            None => None,
        }
    }

    pub fn resolve_qualified_call(&self, qualifier: &str, name: &str) -> (id: Option<FunctionId>)
        ensures
            id == self@.resolve_qualified_call(qualifier@, name@),
    {
        let direct = self.resolve_function(self.mangler.scoped_item(qualifier, name).as_str());
        if direct.is_some() {
            return direct;
        }
        let receiver = match self.lookup_named_type(qualifier) {
            Some(receiver) => receiver,
            None => return None,
        };
        let mut i: usize = 0;
        while i < self.interface_impls.len()
            invariant
                i <= self.interface_impls@.len(),
                self@.resolve_qualified_call(qualifier@, name@) == self@.interface_function(
                    receiver,
                    qualifier@,
                    name@,
                    i as int,
                ),
            decreases self.interface_impls@.len() - i,
        {
            let (typ, interface) = self.interface_impls[i];
            if typ == receiver {
                let interface_name = self.symbols.name(interface);
                let found = self.resolve_function(
                    self.mangler.interface_item(qualifier, interface_name, name).as_str(),
                );
                if found.is_some() {
                    return found;
                }
            }
            i += 1;
        }
        None
    }

    pub fn resolve_function_call(&self, qualifier: Option<&str>, name: &str) -> (id: Option<
        FunctionId,
    >)
        ensures
            id == self@.resolve_function_call(
                match qualifier {
                    Some(qualifier) => Some(qualifier@),
                    None => None,
                },
                name@,
            ),
    {
        if let Some(qualifier) = qualifier {
            let found = self.resolve_qualified_call(qualifier, name);
            if found.is_some() {
                return found;
            }
        }
        self.resolve_function(self.mangler.item(name).as_str())
    }

    /// Adds a function signature and returns its id.
    pub fn push_signature(&mut self, signature: FunctionSignature<'hir>) -> (id: FunctionId)
        ensures
            (final(self)@, id) == old(self)@.push_signature(signature),
            final(self).arena == old(self).arena,
    {
        let id = FunctionId(#[verifier::truncate] (self.signatures.len() as u32));
        self.signatures.push(signature);
        id
    }

    /// The id of a declared function. `error` is what is wrong if there is none.
    pub fn function_id(
        &self,
        function: &ast::Function<'hir>,
        hint: Option<&'hir str>,
        error: HirErrorKind<&'hir str>,
    ) -> (outcome: Result<FunctionId, HirError<&'hir str>>)
        ensures
            seen(outcome) == self@.function_id(
                *function,
                match hint {
                    Some(hint) => Some(hint@),
                    None => None,
                },
                error@,
            ),
    {
        let impl_type = match function.impl_type {
            Some(name) => Some(name),
            None => hint,
        };
        let found = match (function.receiver, impl_type) {
            (Some(_), Some(impl_type)) => match self.lookup_named_type(impl_type) {
                None => {
                    return Err(
                        HirError::new(HirErrorKind::UnknownType { name: impl_type }, function.span),
                    );
                },
                Some(receiver) => match self.symbols.get_id(function.name) {
                    Some(method) => get_pair(&self.methods, member_key(receiver, method)),
                    None => None,
                },
            },
            (Some(_), None) => None,
            (None, Some(impl_type)) => self.resolve_qualified_call(impl_type, function.name),
            (None, None) => self.resolve_function(self.mangler.item(function.name).as_str()),
        };
        match found {
            Some(id) => Ok(id),
            None => Err(HirError::new(error, function.span)),
        }
    }

    /// Whether a function is a generic template that must not be lowered directly.
    pub fn is_generic_function(&self, function: &ast::Function<'hir>) -> (generic: bool)
        ensures
            generic == self@.is_generic_function(*function),
    {
        if function.generics.len() > 0 {
            return true;
        }
        match function.impl_type {
            Some(impl_type) => {
                if text_eq(impl_type, "[]") {
                    return true;
                }
                match self.symbols.get_id(impl_type) {
                    Some(symbol) => self.generic_enums.contains_key(&symbol.0)
                        || self.generic_structs.contains_key(&symbol.0),
                    None => false,
                }
            },
            None => false,
        }
    }

    pub fn structure(&self, id: StructId) -> (definition: Option<Struct<'hir>>)
        ensures
            definition == self@.structure(id),
    {
        let index: usize = id.0 as usize;
        if index < self.structs.len() {
            Some(self.structs[index])
        } else {
            None
        }
    }

    pub fn enumeration(&self, id: EnumId) -> (definition: Option<Enum<'hir>>)
        ensures
            definition == self@.enumeration(id),
    {
        let index: usize = id.0 as usize;
        if index < self.enums.len() {
            Some(self.enums[index])
        } else {
            None
        }
    }

    pub fn signature(&self, id: FunctionId) -> (signature: Option<FunctionSignature<'hir>>)
        ensures
            signature == self@.signature(id),
    {
        let index: usize = id.0 as usize;
        if index < self.signatures.len() {
            Some(self.signatures[index])
        } else {
            None
        }
    }

    /// The constant with the given name.
    pub fn constant(&self, symbol: SymbolId) -> (constant: Option<&'hir Constant<'hir>>)
        ensures
            self@.constant(symbol) == (match constant {
                Some(constant) => Some(const_tree(*constant)),
                None => None,
            }),
    {
        last_named(&self.constants, symbol)
    }
}

} // verus!
