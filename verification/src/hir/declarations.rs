//! The top-level items of a module, sorted by kind.

use crate::arena::{slice_of, Arena};
use crate::ast;
use crate::ast::{Const, Enum, Function, Impl, Interface, ItemKind, Span, Statement, Struct, UseDecl};
use crate::hir::error::{HirError, HirErrorKind};
use crate::hir::scope::Outcome;
use crate::text::text_eq;
use vstd::prelude::*;

verus! {

pub struct Declarations<'hir> {
    pub uses: Vec<&'hir UseDecl<'hir>>,
    pub structs: Vec<&'hir Struct<'hir>>,
    pub enums: Vec<&'hir Enum<'hir>>,
    pub constants: Vec<&'hir Const<'hir>>,
    pub functions: Vec<&'hir Function<'hir>>,
    pub interfaces: Vec<&'hir Interface<'hir>>,
    pub impls: Vec<&'hir Impl<'hir>>,
    /// Doc comments, with the span of what they belong to
    pub docs: Vec<(Span, &'hir Vec<&'hir str>)>,
}

/// The items of a module as contracts see them.
pub ghost struct Items<'hir> {
    pub uses: Seq<&'hir UseDecl<'hir>>,
    pub structs: Seq<&'hir Struct<'hir>>,
    pub enums: Seq<&'hir Enum<'hir>>,
    pub constants: Seq<&'hir Const<'hir>>,
    pub functions: Seq<&'hir Function<'hir>>,
    pub interfaces: Seq<&'hir Interface<'hir>>,
    pub impls: Seq<&'hir Impl<'hir>>,
    pub docs: Seq<(Span, &'hir Vec<&'hir str>)>,
}

impl<'hir> View for Declarations<'hir> {
    type V = Items<'hir>;

    open spec fn view(&self) -> Items<'hir> {
        Items {
            uses: self.uses@,
            structs: self.structs@,
            enums: self.enums@,
            constants: self.constants@,
            functions: self.functions@,
            interfaces: self.interfaces@,
            impls: self.impls@,
            docs: self.docs@,
        }
    }
}

/// The member docs of an item, with their spans.
pub open spec fn member_docs<'hir>(docs: Seq<ast::MemberDocs<'hir>>) -> Seq<
    (Span, &'hir Vec<&'hir str>),
> {
    Seq::new(docs.len(), |i: int| (docs[i].span, docs[i].lines))
}

/// Whether one of the methods has the given name.
pub open spec fn has_method<'hir>(methods: Seq<&'hir Function<'hir>>, name: Seq<char>) -> bool {
    exists|i: int| 0 <= i < methods.len() && (#[trigger] methods[i]).name@ == name
}

fn defines<'hir>(methods: &'hir [&'hir Function<'hir>], name: &str) -> (defined: bool)
    ensures
        defined == has_method(methods@, name@),
{
    let mut i: usize = 0;
    while i < methods.len()
        invariant
            i <= methods@.len(),
            forall|j: int| 0 <= j < i ==> (#[trigger] methods@[j]).name@ != name@,
        decreases methods@.len() - i,
    {
        if text_eq(methods[i].name, name) {
            return true;
        }
        i += 1;
    }
    false
}

/// The method an implementor gets from the default body of an interface.
pub open spec fn default_method<'hir>(
    method: ast::InterfaceMethod<'hir>,
    body: ast::Block<'hir>,
    owner: &'hir str,
) -> Function<'hir> {
    Function {
        name: method.name,
        generics: method.generics,
        receiver: method.receiver,
        params: method.params,
        return_type: method.return_type,
        body,
        impl_type: Some(owner),
        is_const: false,
        is_pub: false,
        inline: false,
        span: method.span,
    }
}

/// The defaults that `own` methods leave to the interface, from position `at` on.
pub open spec fn defaults<'hir>(
    methods: Seq<ast::InterfaceMethod<'hir>>,
    own: Seq<&'hir Function<'hir>>,
    owner: &'hir str,
    at: int,
) -> Seq<&'hir Function<'hir>>
    decreases methods.len() - at,
{
    if at < 0 || at >= methods.len() {
        seq![]
    } else {
        let rest = defaults(methods, own, owner, at + 1);
        match methods[at].default {
            Some(body) => if has_method(own, methods[at].name@) {
                rest
            } else {
                seq![&default_method(methods[at], body, owner)] + rest
            },
            None => rest,
        }
    }
}

/// The interface with the given name, from position `at` on.
pub open spec fn interface_named<'hir>(
    interfaces: Seq<&'hir Interface<'hir>>,
    name: Seq<char>,
    at: int,
) -> Option<&'hir Interface<'hir>>
    decreases interfaces.len() - at,
{
    if at < 0 || at >= interfaces.len() {
        None
    } else if interfaces[at].name@ == name {
        Some(interfaces[at])
    } else {
        interface_named(interfaces, name, at + 1)
    }
}

fn find_interface<'hir>(interfaces: &Vec<&'hir Interface<'hir>>, name: &str) -> (interface: Option<
    &'hir Interface<'hir>,
>)
    ensures
        interface == interface_named(interfaces@, name@, 0),
{
    let mut i: usize = 0;
    while i < interfaces.len()
        invariant
            i <= interfaces@.len(),
            interface_named(interfaces@, name@, 0) == interface_named(interfaces@, name@, i as int),
        decreases interfaces@.len() - i,
    {
        if text_eq(interfaces[i].name, name) {
            return Some(interfaces[i]);
        }
        i += 1;
    }
    None
}

/// An `impl` block together with the default methods of its interface.
pub open spec fn with_defaults<'hir>(
    implementation: &'hir Impl<'hir>,
    interfaces: Seq<&'hir Interface<'hir>>,
) -> &'hir Impl<'hir> {
    match implementation.interface {
        None => implementation,
        Some(name) => match interface_named(interfaces, name@, 0) {
            None => implementation,
            Some(interface) => &Impl {
                methods: slice_of(
                    implementation.methods@ + defaults(
                        interface.methods@,
                        implementation.methods@,
                        implementation.name,
                        0,
                    ),
                ),
                ..*implementation
            },
        },
    }
}

pub open spec fn all_with_defaults<'hir>(
    impls: Seq<&'hir Impl<'hir>>,
    interfaces: Seq<&'hir Interface<'hir>>,
) -> Seq<&'hir Impl<'hir>> {
    Seq::new(impls.len(), |i: int| with_defaults(impls[i], interfaces))
}

fn inject_defaults<'hir>(
    implementation: &'hir Impl<'hir>,
    interfaces: &Vec<&'hir Interface<'hir>>,
    arena: &'hir Arena,
) -> (extended: &'hir Impl<'hir>)
    ensures
        extended == with_defaults(implementation, interfaces@),
{
    let name = match implementation.interface {
        None => return implementation,
        Some(name) => name,
    };
    let interface = match find_interface(interfaces, name) {
        None => return implementation,
        Some(interface) => interface,
    };
    let own = implementation.methods;
    let mut methods: Vec<&'hir Function<'hir>> = Vec::new();
    let mut i: usize = 0;
    while i < own.len()
        invariant
            i <= own@.len(),
            methods@ =~= own@.take(i as int),
        decreases own@.len() - i,
    {
        methods.push(own[i]);
        i += 1;
    }
    let required = interface.methods;
    let ghost all = own@ + defaults(required@, own@, implementation.name, 0);
    assert(methods@ =~= own@);
    let mut i: usize = 0;
    while i < required.len()
        invariant
            i <= required@.len(),
            own == implementation.methods,
            all =~= methods@ + defaults(required@, own@, implementation.name, i as int),
        decreases required@.len() - i,
    {
        let method = required[i];
        if let Some(body) = method.default {
            if !defines(own, method.name) {
                methods.push(
                    arena.place(
                        Function {
                            name: method.name,
                            generics: method.generics,
                            receiver: method.receiver,
                            params: method.params,
                            return_type: method.return_type,
                            body,
                            impl_type: Some(implementation.name),
                            is_const: false,
                            is_pub: false,
                            inline: false,
                            span: method.span,
                        },
                    ),
                );
            }
        }
        i += 1;
    }
    assert(methods@ =~= all);
    let methods = arena.place_slice(&methods);
    arena.place(Impl { methods, ..*implementation })
}

impl<'hir> Items<'hir> {
    pub open spec fn empty() -> Items<'hir> {
        Items {
            uses: seq![],
            structs: seq![],
            enums: seq![],
            constants: seq![],
            functions: seq![],
            interfaces: seq![],
            impls: seq![],
            docs: seq![],
        }
    }

    /// The items with one more.
    pub open spec fn add_item(self, item: ast::Item<'hir>) -> Items<'hir> {
        let items = Items { docs: self.docs.push((item.kind.span(), item.docs)), ..self };
        match item.kind {
            ItemKind::Fn(f) => Items { functions: items.functions.push(f), ..items },
            ItemKind::Interface(i) => Items {
                docs: items.docs + member_docs(i.member_docs@),
                interfaces: items.interfaces.push(i),
                ..items
            },
            ItemKind::Use(u) => Items { uses: items.uses.push(u), ..items },
            ItemKind::Struct(s) => Items { structs: items.structs.push(s), ..items },
            ItemKind::Enum(e) => Items { enums: items.enums.push(e), ..items },
            ItemKind::Impl(i) => Items {
                docs: items.docs + member_docs(i.member_docs@),
                impls: items.impls.push(i),
                ..items
            },
            ItemKind::Const(c) => Items { constants: items.constants.push(c), ..items },
        }
    }

    /// The items with those of `statements` from position `at` on.
    pub open spec fn collect(self, statements: Seq<Statement<'hir>>, at: nat) -> Outcome<Items<'hir>>
        decreases statements.len() - at,
    {
        if at >= statements.len() {
            Ok(self)
        } else {
            match statements[at as int] {
                Statement::Item(item) => self.add_item(item).collect(statements, at + 1),
                other => Err(HirError::new(HirErrorKind::TopLevelNonFunction, other.span())),
            }
        }
    }

    /// The items with every `impl` block extended by the defaults of its interface.
    pub open spec fn inject(self, interfaces: Seq<&'hir Interface<'hir>>) -> Items<'hir> {
        Items { impls: all_with_defaults(self.impls, interfaces), ..self }
    }

    /// The items of a module, complete with the defaults of the given interfaces and its own.
    pub open spec fn partition(
        statements: Seq<Statement<'hir>>,
        interfaces: Seq<&'hir Interface<'hir>>,
    ) -> Outcome<Items<'hir>> {
        match Items::empty().collect(statements, 0) {
            Err(error) => Err(error),
            Ok(items) => Ok(items.inject(interfaces + items.interfaces)),
        }
    }

    /// All functions of the module: the free ones, then the methods of each `impl` block.
    pub open spec fn all_functions(self) -> Seq<&'hir Function<'hir>> {
        self.functions + methods_of(self.impls)
    }
}

/// The methods of a list of `impl` blocks, in order.
pub open spec fn methods_of<'hir>(impls: Seq<&'hir Impl<'hir>>) -> Seq<&'hir Function<'hir>>
    decreases impls.len(),
{
    if impls.len() == 0 {
        seq![]
    } else {
        methods_of(impls.drop_last()) + impls.last().methods@
    }
}

/// The outcome of sorting items as contracts see it.
pub open spec fn seen_items<'hir>(
    result: Result<Declarations<'hir>, HirError<&'hir str>>,
) -> Outcome<Items<'hir>> {
    match result {
        Ok(declarations) => Ok(declarations@),
        Err(error) => Err(error@),
    }
}

impl<'hir> Declarations<'hir> {
    /// Sorts the items of a module and gives every `impl` block the default methods of its
    /// interface, which may be one of `known` or one of the module itself.
    pub fn partition(
        statements: &'hir Vec<Statement<'hir>>,
        known: &Vec<&'hir Interface<'hir>>,
        arena: &'hir Arena,
    ) -> (outcome: Result<Self, HirError<&'hir str>>)
        ensures
            seen_items(outcome) == Items::partition(statements@, known@),
    {
        let mut declarations = match Declarations::collect(statements) {
            Err(error) => return Err(error),
            Ok(declarations) => declarations,
        };
        let mut interfaces: Vec<&'hir Interface<'hir>> = Vec::new();
        let mut i: usize = 0;
        while i < known.len()
            invariant
                i <= known@.len(),
                interfaces@ =~= known@.take(i as int),
            decreases known@.len() - i,
        {
            interfaces.push(known[i]);
            i += 1;
        }
        let mut i: usize = 0;
        while i < declarations.interfaces.len()
            invariant
                i <= declarations.interfaces@.len(),
                interfaces@ =~= known@ + declarations.interfaces@.take(i as int),
            decreases declarations.interfaces@.len() - i,
        {
            interfaces.push(declarations.interfaces[i]);
            i += 1;
        }
        assert(interfaces@ =~= known@ + declarations.interfaces@);
        let ghost items = declarations@;
        let mut impls: Vec<&'hir Impl<'hir>> = Vec::new();
        let mut i: usize = 0;
        while i < declarations.impls.len()
            invariant
                i <= declarations.impls@.len(),
                impls@ =~= all_with_defaults(declarations.impls@, interfaces@).take(i as int),
            decreases declarations.impls@.len() - i,
        {
            impls.push(inject_defaults(declarations.impls[i], &interfaces, arena));
            i += 1;
        }
        assert(impls@ =~= all_with_defaults(declarations.impls@, interfaces@));
        declarations.impls = impls;
        Ok(declarations)
    }

    /// Sorts the items of a module by kind, gathering doc comments.
    pub fn collect(statements: &'hir Vec<Statement<'hir>>) -> (outcome: Result<
        Self,
        HirError<&'hir str>,
    >)
        ensures
            seen_items(outcome) == Items::empty().collect(statements@, 0),
    {
        let mut declarations = Declarations {
            uses: Vec::new(),
            structs: Vec::new(),
            enums: Vec::new(),
            constants: Vec::new(),
            functions: Vec::new(),
            interfaces: Vec::new(),
            impls: Vec::new(),
            docs: Vec::new(),
        };
        assert(declarations@.uses =~= seq![] && declarations@.structs =~= seq![]
            && declarations@.enums =~= seq![] && declarations@.constants =~= seq![]
            && declarations@.functions =~= seq![] && declarations@.interfaces =~= seq![]
            && declarations@.impls =~= seq![] && declarations@.docs =~= seq![]);
        let mut i: usize = 0;
        while i < statements.len()
            invariant
                i <= statements@.len(),
                Items::empty().collect(statements@, 0) == declarations@.collect(
                    statements@,
                    i as nat,
                ),
            decreases statements@.len() - i,
        {
            match statements[i] {
                Statement::Item(item) => declarations.add_item(item),
                other => {
                    return Err(HirError::new(HirErrorKind::TopLevelNonFunction, other.span()));
                },
            }
            i += 1;
        }
        Ok(declarations)
    }

    fn add_item(&mut self, item: ast::Item<'hir>)
        ensures
            final(self)@ == old(self)@.add_item(item),
    {
        self.docs.push((item.kind.span(), item.docs));
        match item.kind {
            ItemKind::Fn(f) => self.functions.push(f),
            ItemKind::Interface(i) => {
                self.add_docs(i.member_docs);
                self.interfaces.push(i);
            },
            ItemKind::Use(u) => self.uses.push(u),
            ItemKind::Struct(s) => self.structs.push(s),
            ItemKind::Enum(e) => self.enums.push(e),
            ItemKind::Impl(i) => {
                self.add_docs(i.member_docs);
                self.impls.push(i);
            },
            ItemKind::Const(c) => self.constants.push(c),
        }
    }

    fn add_docs(&mut self, docs: &'hir Vec<ast::MemberDocs<'hir>>)
        ensures
            final(self)@ == (Items { docs: old(self)@.docs + member_docs(docs@), ..old(self)@ }),
    {
        let mut i: usize = 0;
        while i < docs.len()
            invariant
                i <= docs@.len(),
                self@ == (Items { docs: self@.docs, ..old(self)@ }),
                self@.docs =~= old(self)@.docs + member_docs(docs@).take(i as int),
            decreases docs@.len() - i,
        {
            self.docs.push((docs[i].span, docs[i].lines));
            i += 1;
        }
        assert(member_docs(docs@).take(i as int) =~= member_docs(docs@));
    }

    /// All functions of the module.
    pub fn functions(&self) -> (functions: Vec<&'hir Function<'hir>>)
        ensures
            functions@ == self@.all_functions(),
    {
        let mut functions: Vec<&'hir Function<'hir>> = Vec::new();
        let mut i: usize = 0;
        while i < self.functions.len()
            invariant
                i <= self.functions@.len(),
                functions@ =~= self.functions@.take(i as int),
            decreases self.functions@.len() - i,
        {
            functions.push(self.functions[i]);
            i += 1;
        }
        let mut i: usize = 0;
        while i < self.impls.len()
            invariant
                i <= self.impls@.len(),
                functions@ == self.functions@ + methods_of(self.impls@.take(i as int)),
            decreases self.impls@.len() - i,
        {
            assert(self.impls@.take(i + 1).drop_last() =~= self.impls@.take(i as int));
            let ghost before = functions@;
            let methods = self.impls[i].methods;
            let mut j: usize = 0;
            while j < methods.len()
                invariant
                    j <= methods@.len(),
                    functions@ =~= before + methods@.take(j as int),
                decreases methods@.len() - j,
            {
                functions.push(methods[j]);
                j += 1;
            }
            assert(methods@.take(j as int) =~= methods@);
            assert(functions@ =~= self.functions@ + methods_of(self.impls@.take(i + 1)));
            i += 1;
        }
        assert(self.impls@.take(i as int) =~= self.impls@);
        functions
    }
}

} // verus!
