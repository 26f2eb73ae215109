//! Lowering of whole programs.

use crate::arena::Arena;
use crate::arena::slice_of;
use crate::ast;
use crate::ast::Span;
use crate::hir::body::{Body, FunctionBuilder};
use crate::hir::declarations::{Declarations, Items};
use crate::hir::diagnostics::error_views;
use crate::hir::error::{seen, HirError, HirErrorKind};
use crate::hir::growth::lemma_extends_keeps;
use crate::hir::inference_laws::{
    concrete_functions, lemma_kept_constants, lemma_kept_functions, lemma_no_constants,
};
use crate::hir::layout::{compute_layouts, final_layouts, with_enum_layout, with_layout};
use crate::hir::mono::{function_trees, seen_functions};
use crate::hir::scope::{const_trees, doc_views, empty_names, Names, Outcome, Scope};
use crate::hir::symbols::SymbolTable;
use crate::hir::tree::{
    ArrayType, ConstTree, Constant, Enum, Function, FunctionId, FunctionKind, FunctionTree, Struct,
};
use vstd::prelude::*;

verus! {

/// A lowered program.
pub struct Hir<'hir> {
    pub symbols: SymbolTable,
    pub structs: Vec<Struct<'hir>>,
    pub enums: Vec<Enum<'hir>>,
    /// Interned fixed-size array types, in the order of their ids
    pub arrays: Vec<ArrayType>,
    pub functions: Vec<Function<'hir>>,
    pub constants: Vec<&'hir Constant<'hir>>,
    /// Rendered documentation per item, with its declaration's span
    pub docs: Vec<(Span, &'hir str)>,
    /// Errors recorded in recovery mode
    pub diagnostics: Vec<HirError<&'hir str>>,
}

/// A lowered program as contracts see it.
pub ghost struct Program<'hir> {
    pub symbols: Seq<Seq<char>>,
    pub structs: Seq<Struct<'hir>>,
    pub enums: Seq<Enum<'hir>>,
    pub arrays: Seq<ArrayType>,
    pub functions: Seq<FunctionTree<'hir>>,
    pub constants: Seq<ConstTree<'hir>>,
    pub docs: Seq<(Span, Seq<char>)>,
    pub diagnostics: Seq<HirError<Seq<char>>>,
}

impl<'hir> View for Hir<'hir> {
    type V = Program<'hir>;

    open spec fn view(&self) -> Program<'hir> {
        Program {
            symbols: self.symbols@,
            structs: self.structs@,
            enums: self.enums@,
            arrays: self.arrays@,
            functions: function_trees(self.functions@),
            constants: const_trees(self.constants@),
            docs: doc_views(self.docs@),
            diagnostics: error_views(self.diagnostics@),
        }
    }
}

/// Whether a function is asked for: all are if there is no demand.
pub open spec fn is_wanted(demand: Option<Seq<FunctionId>>, id: FunctionId) -> bool {
    match demand {
        Some(wanted) => wanted.contains(id),
        None => true,
    }
}

impl<'hir> Names<'hir> {
    /// The namespace extended by the declarations of a module.
    pub open spec fn extend(self, items: Items<'hir>) -> (Names<'hir>, Outcome<()>) {
        match self.collect_docs(items.docs, 0).extend_types(items) {
            (names, Err(error)) => (names, Err(error)),
            (names, Ok(_)) => match names.extend_interfaces(items.interfaces, 0) {
                (names, Err(error)) => (names, Err(error)),
                (names, Ok(_)) => match names.extend_signatures(items) {
                    (names, Err(error)) => (names, Err(error)),
                    (names, Ok(_)) => match names.extend_constants(items) {
                        (names, Err(error)) => (names, Err(error)),
                        (names, Ok(_)) => names.validate(items),
                    },
                },
            },
        }
    }

    /// The function to lower for a declaration, unless it is a template, an intrinsic, not
    /// asked for or already lowered.
    pub open spec fn to_lower(
        self,
        function: ast::Function<'hir>,
        demand: Option<Seq<FunctionId>>,
        done: Seq<FunctionId>,
    ) -> Outcome<Option<FunctionId>> {
        if self.is_generic_function(function) {
            Ok(None)
        } else {
            match self.function_id(
                function,
                None,
                HirErrorKind::UnknownFunction { name: function.name@ },
            ) {
                Err(error) => Err(error),
                Ok(id) => {
                    let intrinsic = match self.signature(id) {
                        Some(signature) => signature.kind is Intrinsic,
                        None => false,
                    };
                    if intrinsic || !is_wanted(demand, id) || done.contains(id) {
                        Ok(None)
                    } else {
                        Ok(Some(id))
                    }
                },
            }
        }
    }

    /// Lowers functions from position `at` on.
    pub open spec fn lower_functions(
        self,
        functions: Seq<&'hir ast::Function<'hir>>,
        at: nat,
        demand: Option<Seq<FunctionId>>,
        done: Seq<FunctionId>,
        lowered: Seq<FunctionTree<'hir>>,
    ) -> (Names<'hir>, Outcome<Seq<FunctionTree<'hir>>>)
        decreases functions.len() - at,
    {
        if at >= functions.len() {
            (self, Ok(lowered))
        } else {
            let function = functions[at as int];
            match self.to_lower(*function, demand, done) {
                Err(error) => match self.soft(error) {
                    (names, Err(error)) => (names, Err(error)),
                    (names, Ok(_)) => names.lower_functions(
                        functions,
                        at + 1,
                        demand,
                        done,
                        lowered,
                    ),
                },
                Ok(None) => self.lower_functions(functions, at + 1, demand, done, lowered),
                Ok(Some(id)) => {
                    let (body, outcome) = Body::for_function(
                        self,
                        function,
                        slice_of(seq![]),
                    ).lower_function(id, *function);
                    match outcome {
                        Ok(tree) => body.names.lower_functions(
                            functions,
                            at + 1,
                            demand,
                            done.push(id),
                            lowered.push(tree),
                        ),
                        Err(error) => match body.names.soft(error) {
                            (names, Err(error)) => (names, Err(error)),
                            (names, Ok(_)) => names.lower_functions(
                                functions,
                                at + 1,
                                demand,
                                done.push(id),
                                lowered,
                            ),
                        },
                    }
                },
            }
        }
    }

    /// The program made of a namespace and its functions.
    pub open spec fn finish(self, functions: Seq<FunctionTree<'hir>>) -> Program<'hir> {
        let table = final_layouts(self.structs, self.enums, self.arrays.types);
        Program {
            symbols: self.symbols,
            structs: Seq::new(
                self.structs.len(),
                |i: int| with_layout(self.structs[i], table, self.arrays.types),
            ),
            enums: Seq::new(
                self.enums.len(),
                |i: int| with_enum_layout(self.enums[i], table, self.arrays.types),
            ),
            arrays: self.arrays.types,
            functions,
            constants: self.constants,
            docs: self.docs,
            diagnostics: self.errors,
        }
    }
}

/// The program that a list of items is lowered to.
pub open spec fn lowered<'hir>(statements: Seq<ast::Statement<'hir>>) -> Outcome<Program<'hir>> {
    match Items::partition(statements, seq![]) {
        Err(error) => Err(error),
        Ok(items) => {
            let (names, extended) = empty_names::<'hir>("nyx"@).extend(items);
            match extended {
                Err(error) => Err(error),
                Ok(_) => {
                    let (names, functions) = names.lower_functions(
                        items.all_functions(),
                        0,
                        None,
                        seq![],
                        seq![],
                    );
                    match functions {
                        Err(error) => Err(error),
                        Ok(functions) => {
                            let (names, functions) = names.monomorphise(functions);
                            match functions {
                                Err(error) => Err(error),
                                Ok(functions) => Ok(names.finish(functions)),
                            }
                        },
                    }
                },
            }
        },
    }
}

/// The outcome of lowering a program as contracts see it.
pub open spec fn seen_program<'hir>(result: Result<Hir<'hir>, HirError<&'hir str>>) -> Outcome<
    Program<'hir>,
> {
    match result {
        Ok(hir) => Ok(hir@),
        Err(error) => Err(error@),
    }
}

pub open spec fn seen_lowering<'hir>(
    result: Result<Option<FunctionId>, HirError<&'hir str>>,
) -> Outcome<Option<FunctionId>> {
    match result {
        Ok(id) => Ok(id),
        Err(error) => Err(error@),
    }
}

pub fn contains_function(ids: &Vec<FunctionId>, id: FunctionId) -> (contained: bool)
    ensures
        contained == ids@.contains(id),
{
    let mut i: usize = 0;
    while i < ids.len()
        invariant
            i <= ids@.len(),
            forall|j: int| 0 <= j < i ==> ids@[j] != id,
        decreases ids@.len() - i,
    {
        if ids[i] == id {
            assert(ids@[i as int] == id);
            return true;
        }
        i += 1;
    }
    false
}

impl<'hir> Scope<'hir> {
    /// Extends the namespace by the declarations of a module.
    ///
    /// Ids continue from what is already there, so this is called once per module in dependency
    /// order.
    pub fn extend(self, declarations: &Declarations<'hir>) -> (result: (
        Scope<'hir>,
        Result<(), HirError<&'hir str>>,
    ))
        ensures
            (result.0@, seen(result.1)) == self@.extend(declarations@),
            self@.constants_concrete() ==> result.0@.constants_concrete(),
    {
        let mut scope = self;
        let ghost items = declarations@;
        scope.collect_docs(&declarations.docs);
        let ghost documented = scope@;
        let types = scope.extend_types(declarations);
        proof {
            self@.lemma_collect_docs_grows(items.docs, 0);
            documented.lemma_extend_types_grows(items);
            if self@.constants_concrete() {
                lemma_kept_constants(self@, documented);
                lemma_kept_constants(documented, scope@);
            }
        }
        if let Err(error) = types {
            return (scope, Err(error));
        }
        let ghost typed = scope@;
        let interfaces = scope.extend_interfaces(&declarations.interfaces);
        proof {
            typed.lemma_extend_interfaces_grows(items.interfaces, 0);
            if self@.constants_concrete() {
                lemma_kept_constants(typed, scope@);
            }
        }
        if let Err(error) = interfaces {
            return (scope, Err(error));
        }
        let ghost before = scope@;
        let signatures = scope.extend_signatures(declarations);
        proof {
            before.lemma_extend_signatures_grows(items);
            if self@.constants_concrete() {
                lemma_kept_constants(before, scope@);
            }
        }
        if let Err(error) = signatures {
            return (scope, Err(error));
        }
        let (mut scope, outcome) = scope.extend_constants(declarations);
        if let Err(error) = outcome {
            return (scope, Err(error));
        }
        let ghost settled = scope@;
        let outcome = scope.validate(declarations);
        proof {
            settled.lemma_validate_grows(items);
            if self@.constants_concrete() {
                lemma_kept_constants(settled, scope@);
            }
        }
        (scope, outcome)
    }

    fn to_lower(
        &self,
        function: &'hir ast::Function<'hir>,
        demand: Option<&Vec<FunctionId>>,
        done: &Vec<FunctionId>,
    ) -> (outcome: Result<Option<FunctionId>, HirError<&'hir str>>)
        ensures
            seen_lowering(outcome) == self@.to_lower(
                *function,
                match demand {
                    Some(wanted) => Some(wanted@),
                    None => None,
                },
                done@,
            ),
    {
        if self.is_generic_function(function) {
            return Ok(None);
        }
        let unknown = HirErrorKind::UnknownFunction { name: function.name };
        let id = match self.function_id(function, None, unknown) {
            Err(error) => return Err(error),
            Ok(id) => id,
        };
        let intrinsic = match self.signature(id) {
            Some(signature) => match signature.kind {
                FunctionKind::Intrinsic(_) => true,
                _ => false,
            },
            None => false,
        };
        let wanted = match demand {
            Some(wanted) => contains_function(wanted, id),
            None => true,
        };
        if intrinsic || !wanted || contains_function(done, id) {
            Ok(None)
        } else {
            Ok(Some(id))
        }
    }

    /// Lowers the functions of a module that are asked for: all of them if there is no demand.
    pub fn lower_matching_functions(
        self,
        declarations: &Declarations<'hir>,
        demand: Option<&Vec<FunctionId>>,
    ) -> (result: (Scope<'hir>, Result<Vec<Function<'hir>>, HirError<&'hir str>>))
        ensures
            (result.0@, seen_functions(result.1)) == self@.lower_functions(
                declarations@.all_functions(),
                0,
                match demand {
                    Some(wanted) => Some(wanted@),
                    None => None,
                },
                seq![],
                seq![],
            ),
            result.1 matches Ok(functions) ==> concrete_functions(
                result.0@.arrays.types,
                function_trees(functions@),
            ),
            self@.constants_concrete() ==> result.0@.constants_concrete(),
    {
        let functions = declarations.functions();
        let ghost all = functions@;
        let ghost wanted = match demand {
            Some(wanted) => Some(wanted@),
            None => None,
        };
        let mut scope = self;
        let mut lowered: Vec<Function<'hir>> = Vec::new();
        let mut done: Vec<FunctionId> = Vec::new();
        assert(function_trees(lowered@) =~= seq![]);
        assert(done@ =~= seq![]);
        let mut i: usize = 0;
        while i < functions.len()
            invariant
                i <= functions@.len(),
                all == functions@,
                wanted == (match demand {
                    Some(wanted) => Some(wanted@),
                    None => None,
                }),
                self@.lower_functions(all, 0, wanted, seq![], seq![]) == scope@.lower_functions(
                    all,
                    i as nat,
                    wanted,
                    done@,
                    function_trees(lowered@),
                ),
                all == declarations@.all_functions(),
                concrete_functions(scope@.arrays.types, function_trees(lowered@)),
                self@.constants_concrete() ==> scope@.constants_concrete(),
            decreases functions@.len() - i,
        {
            let function = functions[i];
            let ghost start = scope@;
            match scope.to_lower(function, demand, &done) {
                Err(error) => {
                    if let Err(error) = scope.soft(error) {
                        return (scope, Err(error));
                    }
                },
                Ok(None) => {},
                Ok(Some(id)) => {
                    let (next, outcome) = FunctionBuilder::new(scope, function).lower(id, function);
                    scope = next;
                    proof {
                        let body = Body::for_function(start, function, slice_of(seq![]));
                        body.lemma_lower_function_grows(id, *function);
                        lemma_extends_keeps(start.ledger(), scope@.ledger());
                        lemma_kept_functions(start.arrays, scope@.arrays, function_trees(lowered@));
                        if self@.constants_concrete() {
                            lemma_kept_constants(start, scope@);
                        }
                    }
                    match outcome {
                        Ok(tree) => {
                            let ghost before = lowered@;
                            lowered.push(tree);
                            assert(function_trees(lowered@) =~= function_trees(before).push(tree@));
                        },
                        Err(error) => {
                            if let Err(error) = scope.soft(error) {
                                return (scope, Err(error));
                            }
                        },
                    }
                    done.push(id);
                },
            }
            i += 1;
        }
        (scope, Ok(lowered))
    }

    /// The program made of the namespace and its functions.
    pub fn finish(self, functions: Vec<Function<'hir>>) -> (hir: Hir<'hir>)
        ensures
            hir@ == self@.finish(function_trees(functions@)),
    {
        let mut scope = self;
        let arrays = scope.arrays.snapshot();
        compute_layouts(&mut scope.structs, &mut scope.enums, &arrays, scope.arena);
        let diagnostics = scope.diagnostics.take_errors();
        Hir {
            symbols: scope.symbols,
            structs: scope.structs,
            enums: scope.enums,
            arrays,
            functions,
            constants: scope.constants,
            docs: scope.docs,
            diagnostics,
        }
    }
}

/// Lowers the parsed items of a program.
pub fn lower<'hir>(statements: &'hir Vec<ast::Statement<'hir>>, arena: &'hir Arena) -> (outcome:
    Result<Hir<'hir>, HirError<&'hir str>>)
    ensures
        seen_program(outcome) == lowered(statements@),
        outcome matches Ok(hir) ==> hir@.all_concrete(),
{
    let known: Vec<&'hir ast::Interface<'hir>> = Vec::new();
    assert(known@ =~= seq![]);
    let declarations = match Declarations::partition(statements, &known, arena) {
        Err(error) => return Err(error),
        Ok(declarations) => declarations,
    };
    let scope = Scope::new(arena);
    proof {
        lemma_no_constants(scope@);
    }
    let (scope, outcome) = scope.extend(&declarations);
    if let Err(error) = outcome {
        return Err(error);
    }
    let (scope, outcome) = scope.lower_matching_functions(&declarations, None);
    let functions = match outcome {
        Err(error) => return Err(error),
        Ok(functions) => functions,
    };
    let (scope, outcome) = scope.monomorphise(functions);
    match outcome {
        Err(error) => Err(error),
        Ok(functions) => Ok(scope.finish(functions)),
    }
}

} // verus!
