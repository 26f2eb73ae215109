//! The functions that a program needs: what can be reached from `main`.

use crate::ast::{
    Arm, BinaryOperator, Block, Else, Expression, FieldInit, Function, If, ItemKind, LoopHeader,
    Statement,
};
use crate::hir::scope::{Names, Scope};
use crate::hir::tree::FunctionId;
use vstd::prelude::*;

verus! {

broadcast use vstd::std_specs::hash::group_hash_axioms;

/// What a piece of code calls: functions by name, and whether any method at all.
pub ghost struct Calls {
    pub ids: Seq<FunctionId>,
    pub methods: bool,
}

impl Calls {
    pub open spec fn none() -> Calls {
        Calls { ids: Seq::empty(), methods: false }
    }

    pub open spec fn with(self, id: Option<FunctionId>) -> Calls {
        match id {
            Some(id) => Calls { ids: self.ids.push(id), ..self },
            None => self,
        }
    }

    pub open spec fn with_methods(self) -> Calls {
        Calls { methods: true, ..self }
    }
}

#[verifier::allow_in_spec]
pub fn is_comparison(operator: BinaryOperator) -> bool
    returns
        (match operator {
            BinaryOperator::Eq
            | BinaryOperator::Ne
            | BinaryOperator::Lt
            | BinaryOperator::LtEq
            | BinaryOperator::Gt
            | BinaryOperator::GtEq => true,
            _ => false,
        }),
{
    match operator {
        BinaryOperator::Eq
        | BinaryOperator::Ne
        | BinaryOperator::Lt
        | BinaryOperator::LtEq
        | BinaryOperator::Gt
        | BinaryOperator::GtEq => true,
        _ => false,
    }
}

impl<'hir> Names<'hir> {
    /// What an expression calls. A method is called through a type that is not known here, and a
    /// comparison may stand for one: either counts as calling them all.
    pub open spec fn expr_calls(self, calls: Calls, expr: Expression<'hir>) -> Calls
        decreases expr, 0nat,
    {
        match expr {
            Expression::Call(call) => {
                let named = match *call.callee {
                    Expression::Identifier(name, _) => calls.with(
                        self.resolve_function_call(None, name@),
                    ),
                    Expression::Field(_) => calls.with_methods(),
                    _ => self.expr_calls(calls, *call.callee),
                };
                self.exprs_calls(named, call.args@, 0)
            },
            Expression::QualifiedCall(call) => self.exprs_calls(
                calls.with(self.resolve_function_call(Some(call.qualifier@), call.name@)),
                call.args@,
                0,
            ),
            Expression::TypeIntrinsic(intrinsic) => calls.with(
                self.resolve_function_call(
                    match intrinsic.qualifier {
                        Some(qualifier) => Some(qualifier@),
                        None => None,
                    },
                    intrinsic.kind.name()@,
                ),
            ),
            Expression::Binary(binary) => {
                let compared = if is_comparison(binary.operator) {
                    calls.with_methods()
                } else {
                    calls
                };
                self.expr_calls(self.expr_calls(compared, *binary.left), *binary.right)
            },
            Expression::Unary(unary) => self.expr_calls(calls, *unary.expr),
            Expression::Assignment(assignment) => self.expr_calls(
                self.expr_calls(calls, *assignment.target),
                *assignment.value,
            ),
            Expression::Cast(cast) => self.expr_calls(calls, *cast.expr),
            Expression::Struct(literal) => self.fields_calls(calls, literal.fields@, 0),
            Expression::Field(access) => self.expr_calls(calls, *access.expr),
            Expression::Array(literal) => self.exprs_calls(calls, literal.elements@, 0),
            Expression::ArrayRepeat(literal) => self.expr_calls(calls, *literal.value),
            Expression::Index(access) => self.expr_calls(
                self.expr_calls(calls, *access.base),
                *access.index,
            ),
            Expression::Integer(..)
            | Expression::Float(..)
            | Expression::String(..)
            | Expression::Char(..)
            | Expression::Bool(..)
            | Expression::Identifier(..)
            | Expression::QualifiedName(_) => calls,
        }
    }

    pub open spec fn exprs_calls(self, calls: Calls, items: Seq<Expression<'hir>>, at: nat) -> Calls
        decreases items, (items.len() - at) as nat,
    {
        if at >= items.len() {
            calls
        } else {
            self.exprs_calls(self.expr_calls(calls, items[at as int]), items, at + 1)
        }
    }

    pub open spec fn fields_calls(self, calls: Calls, items: Seq<FieldInit<'hir>>, at: nat) -> Calls
        decreases items, (items.len() - at) as nat,
    {
        if at >= items.len() {
            calls
        } else {
            self.fields_calls(self.expr_calls(calls, items[at as int].value), items, at + 1)
        }
    }

    /// What a statement calls.
    pub open spec fn statement_calls(self, calls: Calls, statement: Statement<'hir>) -> Calls
        decreases statement, 0nat,
    {
        match statement {
            Statement::Let(binding) => match binding.value {
                Some(value) => self.expr_calls(calls, value),
                None => calls,
            },
            Statement::Return(statement) => match statement.value {
                Some(value) => self.expr_calls(calls, value),
                None => calls,
            },
            Statement::If(branch) => self.if_calls(calls, branch),
            Statement::While(statement) => self.block_calls(
                self.expr_calls(calls, statement.condition),
                statement.body,
            ),
            Statement::Loop(statement) => self.block_calls(
                match statement.header {
                    LoopHeader::Infinite => calls,
                    LoopHeader::Range { start, end, .. } => self.expr_calls(
                        self.expr_calls(calls, start),
                        end,
                    ),
                    LoopHeader::Iterable { iterable, .. } => self.expr_calls(calls, iterable),
                },
                statement.body,
            ),
            Statement::Expr(expr, _) => self.expr_calls(calls, expr),
            Statement::Block(block) => self.block_calls(calls, block),
            Statement::Match(statement) => self.arms_calls(
                self.expr_calls(calls, statement.scrutinee),
                statement.arms@,
                0,
            ),
            Statement::Item(item) => match item.kind {
                ItemKind::Const(constant) => self.expr_calls(calls, constant.value),
                _ => calls,
            },
            Statement::Break(_) | Statement::Continue(_) => calls,
        }
    }

    pub open spec fn if_calls(self, calls: Calls, branch: If<'hir>) -> Calls
        decreases branch, 0nat,
    {
        let taken = self.block_calls(self.expr_calls(calls, branch.condition), branch.then_branch);
        match branch.else_branch {
            Some(other) => match *other {
                Else::If(branch) => self.if_calls(taken, branch),
                Else::Block(block) => self.block_calls(taken, block),
                Else::Expr(expr) => self.expr_calls(taken, expr),
            },
            None => taken,
        }
    }

    pub open spec fn arms_calls(self, calls: Calls, items: Seq<Arm<'hir>>, at: nat) -> Calls
        decreases items, (items.len() - at) as nat,
    {
        if at >= items.len() {
            calls
        } else {
            let arm = items[at as int];
            let guarded = match arm.guard {
                Some(guard) => self.expr_calls(calls, guard),
                None => calls,
            };
            self.arms_calls(self.expr_calls(guarded, arm.body), items, at + 1)
        }
    }

    pub open spec fn block_calls(self, calls: Calls, block: Block<'hir>) -> Calls
        decreases block, 1nat,
    {
        self.statements_calls(calls, block.statements@, 0)
    }

    pub open spec fn statements_calls(
        self,
        calls: Calls,
        items: Seq<Statement<'hir>>,
        at: nat,
    ) -> Calls
        decreases items, (items.len() - at) as nat,
    {
        if at >= items.len() {
            calls
        } else {
            self.statements_calls(self.statement_calls(calls, items[at as int]), items, at + 1)
        }
    }

    /// Whether a number stands for a method of some type.
    pub open spec fn is_method(self, id: FunctionId) -> bool {
        self.methods.values().contains(id)
    }
}

/// The declared functions of a program: the number of each, and whether it belongs to the
/// project rather than the standard library.
#[derive(Debug, Clone, Copy)]
pub struct Declared<'hir> {
    pub id: FunctionId,
    pub function: &'hir Function<'hir>,
    pub in_project: bool,
}

/// The last declaration before `end` with the number.
pub open spec fn declared_as<'hir>(all: Seq<Declared<'hir>>, id: FunctionId, end: nat) -> Option<
    Declared<'hir>,
>
    decreases end,
{
    if end == 0 || end > all.len() {
        None
    } else if all[end - 1].id == id {
        Some(all[end - 1])
    } else {
        declared_as(all, id, (end - 1) as nat)
    }
}

/// Whether a number is that of a function of the project.
pub open spec fn in_project(all: Seq<Declared>, id: FunctionId) -> bool {
    match declared_as(all, id, all.len()) {
        Some(declared) => declared.in_project,
        None => false,
    }
}

impl<'hir> Names<'hir> {
    /// Whether the function `caller` may call `callee`.
    pub open spec fn may_call(
        self,
        all: Seq<Declared<'hir>>,
        caller: FunctionId,
        callee: FunctionId,
    ) -> bool {
        callee.0 < self.signatures.len() && match declared_as(all, caller, all.len()) {
            Some(declared) => {
                let calls = self.block_calls(Calls::none(), declared.function.body);
                calls.ids.contains(callee) || (calls.methods && self.is_method(callee))
            },
            None => false,
        }
    }

    /// Whether a program starts from a function: from `main`, and if all is kept from every
    /// function of the project.
    pub open spec fn is_root(
        self,
        all: Seq<Declared<'hir>>,
        keep_all: bool,
        id: FunctionId,
    ) -> bool {
        id.0 < self.signatures.len() && (self.function_named(self.item("main"@)) == Some(id) || (
        keep_all && in_project(all, id)))
    }

    /// Whether a function can be reached from where the program starts, in so many calls.
    pub open spec fn reaches(
        self,
        all: Seq<Declared<'hir>>,
        keep_all: bool,
        steps: nat,
        id: FunctionId,
    ) -> bool
        decreases steps,
    {
        if steps == 0 {
            self.is_root(all, keep_all, id)
        } else {
            self.reaches(all, keep_all, (steps - 1) as nat, id) || exists|caller: FunctionId|
                self.reaches(all, keep_all, (steps - 1) as nat, caller) && #[trigger] self.may_call(
                    all,
                    caller,
                    id,
                )
        }
    }

    /// Whether a program needs a function: it can be reached.
    pub open spec fn is_needed(
        self,
        all: Seq<Declared<'hir>>,
        keep_all: bool,
        id: FunctionId,
    ) -> bool {
        exists|steps: nat| #[trigger] self.reaches(all, keep_all, steps, id)
    }
}

struct Found {
    ids: Vec<FunctionId>,
    methods: bool,
}

impl View for Found {
    type V = Calls;

    closed spec fn view(&self) -> Calls {
        Calls { ids: self.ids@, methods: self.methods }
    }
}

impl Found {
    fn add_call(&mut self, id: Option<FunctionId>)
        ensures
            final(self)@ == old(self)@.with(id),
    {
        match id {
            Some(id) => self.ids.push(id),
            None => {},
        }
    }

    fn add_methods(&mut self)
        ensures
            final(self)@ == old(self)@.with_methods(),
    {
        self.methods = true;
    }
}

struct ReachabilityVisitor<'a, 'hir> {
    scope: &'a Scope<'hir>,
    found: Found,
}

impl<'a, 'hir> ReachabilityVisitor<'a, 'hir> {
    fn visit_expression(&mut self, expr: &Expression<'hir>)
        ensures
            final(self).found@ == old(self).scope@.expr_calls(old(self).found@, *expr),
            final(self).scope == old(self).scope,
        decreases *expr, 0nat,
    {
        match *expr {
            Expression::Call(call) => {
                match *call.callee {
                    Expression::Identifier(name, _) => {
                        let id = self.scope.resolve_function_call(None, name);
                        self.found.add_call(id);
                    },
                    Expression::Field(_) => self.found.add_methods(),
                    _ => self.visit_expression(call.callee),
                }
                self.visit_expressions(call.args);
            },
            Expression::QualifiedCall(call) => {
                let id = self.scope.resolve_function_call(Some(call.qualifier), call.name);
                self.found.add_call(id);
                self.visit_expressions(call.args);
            },
            Expression::TypeIntrinsic(intrinsic) => {
                let id = self.scope.resolve_function_call(
                    intrinsic.qualifier,
                    intrinsic.kind.name(),
                );
                self.found.add_call(id);
            },
            Expression::Binary(binary) => {
                if is_comparison(binary.operator) {
                    self.found.add_methods();
                }
                self.visit_expression(binary.left);
                self.visit_expression(binary.right);
            },
            Expression::Unary(unary) => self.visit_expression(unary.expr),
            Expression::Assignment(assignment) => {
                self.visit_expression(assignment.target);
                self.visit_expression(assignment.value);
            },
            Expression::Cast(cast) => self.visit_expression(cast.expr),
            Expression::Struct(literal) => self.visit_fields(literal.fields),
            Expression::Field(access) => self.visit_expression(access.expr),
            Expression::Array(literal) => self.visit_expressions(literal.elements),
            Expression::ArrayRepeat(literal) => self.visit_expression(literal.value),
            Expression::Index(access) => {
                self.visit_expression(access.base);
                self.visit_expression(access.index);
            },
            Expression::Integer(..)
            | Expression::Float(..)
            | Expression::String(..)
            | Expression::Char(..)
            | Expression::Bool(..)
            | Expression::Identifier(..)
            | Expression::QualifiedName(_) => {},
        }
    }

    fn visit_expressions(&mut self, items: &Vec<Expression<'hir>>)
        ensures
            final(self).found@ == old(self).scope@.exprs_calls(old(self).found@, items@, 0),
            final(self).scope == old(self).scope,
        decreases items@, 0nat,
    {
        let mut i: usize = 0;
        while i < items.len()
            invariant
                i <= items@.len(),
                self.scope == old(self).scope,
                old(self).scope@.exprs_calls(old(self).found@, items@, 0)
                    == self.scope@.exprs_calls(self.found@, items@, i as nat),
            decreases items@.len() - i,
        {
            assert(decreases_to!(items@ => items@[i as int]));
            self.visit_expression(&items[i]);
            i = i + 1;
        }
    }

    fn visit_fields(&mut self, items: &Vec<FieldInit<'hir>>)
        ensures
            final(self).found@ == old(self).scope@.fields_calls(old(self).found@, items@, 0),
            final(self).scope == old(self).scope,
        decreases items@, 0nat,
    {
        let mut i: usize = 0;
        while i < items.len()
            invariant
                i <= items@.len(),
                self.scope == old(self).scope,
                old(self).scope@.fields_calls(old(self).found@, items@, 0)
                    == self.scope@.fields_calls(self.found@, items@, i as nat),
            decreases items@.len() - i,
        {
            assert(decreases_to!(items@ => items@[i as int]));
            assert(decreases_to!(items@[i as int] => items@[i as int].value));
            self.visit_expression(&items[i].value);
            i = i + 1;
        }
    }

    fn visit_statement(&mut self, statement: &Statement<'hir>)
        ensures
            final(self).found@ == old(self).scope@.statement_calls(old(self).found@, *statement),
            final(self).scope == old(self).scope,
        decreases *statement, 0nat,
    {
        match *statement {
            Statement::Let(binding) => {
                match &binding.value {
                    Some(value) => self.visit_expression(value),
                    None => {},
                }
            },
            Statement::Return(statement) => {
                match &statement.value {
                    Some(value) => self.visit_expression(value),
                    None => {},
                }
            },
            Statement::If(branch) => self.visit_if(&branch),
            Statement::While(statement) => {
                self.visit_expression(&statement.condition);
                self.visit_block(&statement.body);
            },
            Statement::Loop(statement) => {
                match &statement.header {
                    LoopHeader::Infinite => {},
                    LoopHeader::Range { start, end, .. } => {
                        self.visit_expression(start);
                        self.visit_expression(end);
                    },
                    LoopHeader::Iterable { iterable, .. } => self.visit_expression(iterable),
                }
                self.visit_block(&statement.body);
            },
            Statement::Expr(expr, _) => self.visit_expression(&expr),
            Statement::Block(block) => self.visit_block(&block),
            Statement::Match(statement) => {
                self.visit_expression(&statement.scrutinee);
                self.visit_arms(statement.arms);
            },
            Statement::Item(item) => {
                match item.kind {
                    ItemKind::Const(constant) => self.visit_expression(&constant.value),
                    _ => {},
                }
            },
            Statement::Break(_) | Statement::Continue(_) => {},
        }
    }

    fn visit_if(&mut self, branch: &If<'hir>)
        ensures
            final(self).found@ == old(self).scope@.if_calls(old(self).found@, *branch),
            final(self).scope == old(self).scope,
        decreases *branch, 0nat,
    {
        self.visit_expression(&branch.condition);
        self.visit_block(&branch.then_branch);
        match branch.else_branch {
            Some(other) => match other {
                Else::If(branch) => self.visit_if(branch),
                Else::Block(block) => self.visit_block(block),
                Else::Expr(expr) => self.visit_expression(expr),
            },
            None => {},
        }
    }

    fn visit_arms(&mut self, items: &Vec<Arm<'hir>>)
        ensures
            final(self).found@ == old(self).scope@.arms_calls(old(self).found@, items@, 0),
            final(self).scope == old(self).scope,
        decreases items@, 0nat,
    {
        let mut i: usize = 0;
        while i < items.len()
            invariant
                i <= items@.len(),
                self.scope == old(self).scope,
                old(self).scope@.arms_calls(old(self).found@, items@, 0) == self.scope@.arms_calls(
                    self.found@,
                    items@,
                    i as nat,
                ),
            decreases items@.len() - i,
        {
            let arm = items[i];
            match &arm.guard {
                Some(guard) => self.visit_expression(guard),
                None => {},
            }
            self.visit_expression(&arm.body);
            i = i + 1;
        }
    }

    fn visit_block(&mut self, block: &Block<'hir>)
        ensures
            final(self).found@ == old(self).scope@.block_calls(old(self).found@, *block),
            final(self).scope == old(self).scope,
        decreases *block, 1nat,
    {
        let items = block.statements;
        let mut i: usize = 0;
        while i < items.len()
            invariant
                i <= items@.len(),
                items == block.statements,
                self.scope == old(self).scope,
                old(self).scope@.statements_calls(old(self).found@, items@, 0)
                    == self.scope@.statements_calls(self.found@, items@, i as nat),
            decreases items@.len() - i,
        {
            assert(decreases_to!(block.statements@ => block.statements@[i as int]));
            self.visit_statement(&items[i]);
            i = i + 1;
        }
    }
}

/// The functions a program needs, by their numbers.
#[derive(Debug)]
pub struct DemandSet {
    pub needed: Vec<bool>,
}

impl DemandSet {
    pub open spec fn has(self, id: FunctionId) -> bool {
        id.0 < self.needed@.len() && self.needed@[id.0 as int]
    }

    pub fn contains(&self, id: FunctionId) -> (contained: bool)
        ensures
            contained == self.has(id),
    {
        (id.0 as usize) < self.needed.len() && self.needed[id.0 as usize]
    }
}

fn find_declared<'hir>(all: &Vec<Declared<'hir>>, id: FunctionId) -> (declared: Option<
    Declared<'hir>,
>)
    ensures
        declared == declared_as(all@, id, all@.len()),
{
    let mut end: usize = all.len();
    while end > 0
        invariant
            end <= all@.len(),
            declared_as(all@, id, all@.len()) == declared_as(all@, id, end as nat),
        decreases end,
    {
        if all[end - 1].id == id {
            return Some(all[end - 1]);
        }
        end = end - 1;
    }
    None
}

/// Whether a number is that of a function of the project.
pub fn is_in_project(all: &Vec<Declared>, id: FunctionId) -> (is: bool)
    ensures
        is == in_project(all@, id),
{
    match find_declared(all, id) {
        Some(declared) => declared.in_project,
        None => false,
    }
}

/// The places that hold `true`.
spec fn marked(marks: Seq<bool>) -> Set<int> {
    Set::new(|i: int| 0 <= i < marks.len() && marks[i])
}

proof fn lemma_marked(marks: Seq<bool>)
    ensures
        marked(marks).finite(),
        marked(marks).len() <= marks.len(),
{
    let range = vstd::set_lib::set_int_range(0, marks.len() as int);
    vstd::set_lib::lemma_int_range(0, marks.len() as int);
    assert(marked(marks).subset_of(range));
    vstd::set_lib::lemma_len_subset(marked(marks), range);
}

proof fn lemma_mark(marks: Seq<bool>, i: int)
    requires
        0 <= i < marks.len(),
        !marks[i],
    ensures
        marked(marks.update(i, true)).len() == marked(marks).len() + 1,
{
    lemma_marked(marks);
    assert(marked(marks.update(i, true)) =~= marked(marks).insert(i));
}

/// How many functions there are, as far as they can be numbered.
pub open spec fn width(names: Names) -> nat {
    if names.signatures.len() > u32::MAX {
        (u32::MAX + 1) as nat
    } else {
        names.signatures.len()
    }
}

struct Worklist<'a, 'hir> {
    scope: &'a Scope<'hir>,
    all: &'a Vec<Declared<'hir>>,
    keep_all: bool,
    needed: Vec<bool>,
    stack: Vec<FunctionId>,
}

/// The numbers of all methods.
fn method_ids<'hir>(scope: &Scope<'hir>) -> (ids: Vec<FunctionId>)
    ensures
        forall|id: FunctionId| ids@.contains(id) <==> #[trigger] scope@.is_method(id),
        forall|k: int| 0 <= k < ids@.len() ==> scope@.is_method(#[trigger] ids@[k]),
{
    let ghost values = scope@.methods.values();
    let mut ids: Vec<FunctionId> = Vec::new();
    for id in found: scope.methods.values()
        invariant
            found.seq().unref().to_set() == values,
            found.index() <= found.seq().len(),
            ids@ == found.seq().unref().take(found.index()),
            forall|k: int| 0 <= k < ids@.len() ==> values.contains(#[trigger] ids@[k]),
            forall|id: FunctionId| #[trigger]
                values.contains(id) ==> found.index() < found.seq().len() || ids@.contains(id),
    {
        let ghost all = found.seq().unref();
        let ghost before = ids@;
        ids.push(*id);
        assert(ids@ =~= all.take(found.index() + 1));
        assert forall|k: int| 0 <= k < ids@.len() implies values.contains(#[trigger] ids@[k]) by {
            assert(all.contains(all[k]));
        }
        assert forall|id: FunctionId| #[trigger] values.contains(id) implies found.index() + 1
            < all.len() || ids@.contains(id) by {
            if found.index() + 1 >= all.len() {
                assert(ids@ =~= all);
                assert(all.to_set().contains(id));
            }
        }
    }
    assert forall|id: FunctionId| ids@.contains(id) <==> #[trigger] scope@.is_method(id) by {
        if ids@.contains(id) {
            let k = choose|k: int| 0 <= k < ids@.len() && ids@[k] == id;
            assert(values.contains(ids@[k]));
        }
    }
    ids
}

impl<'a, 'hir> Worklist<'a, 'hir> {
    /// Whether all that is marked is needed, and what waits is marked.
    spec fn wf(self) -> bool {
        &&& self.needed@.len() == width(self.scope@)
        &&& forall|i: int|
            0 <= i < self.needed@.len() && #[trigger] self.needed@[i] ==> self.scope@.is_needed(
                self.all@,
                self.keep_all,
                FunctionId(i as u32),
            )
        &&& forall|i: int|
            0 <= i < self.stack@.len() ==> (#[trigger] self.stack@[i]).0 < self.needed@.len()
                && self.needed@[self.stack@[i].0 as int]
    }

    spec fn is_marked(self, id: FunctionId) -> bool {
        id.0 < self.needed@.len() && self.needed@[id.0 as int]
    }

    /// Whether all that a marked function calls is marked, unless the function waits or is
    /// `current`.
    spec fn closed_but(self, current: Option<FunctionId>) -> bool {
        forall|caller: FunctionId, callee: FunctionId|
            self.is_marked(caller) && !self.stack@.contains(caller) && current != Some(caller)
                && #[trigger] self.scope@.may_call(self.all@, caller, callee) ==> self.is_marked(
                callee,
            )
    }

    spec fn same_world(self, other: Self) -> bool {
        self.scope == other.scope && self.all == other.all && self.keep_all == other.keep_all
    }

    spec fn measure(self) -> nat {
        (2 * (self.needed@.len() - marked(self.needed@).len()) + self.stack@.len()) as nat
    }

    /// Marks a function that is needed.
    fn add(&mut self, id: FunctionId, Ghost(current): Ghost<Option<FunctionId>>)
        requires
            old(self).wf(),
            old(self).closed_but(current),
            id.0 < old(self).scope@.signatures.len() ==> old(self).scope@.is_needed(
                old(self).all@,
                old(self).keep_all,
                id,
            ),
        ensures
            final(self).wf(),
            final(self).closed_but(current),
            final(self).same_world(*old(self)),
            final(self).measure() <= old(self).measure(),
            id.0 < final(self).needed@.len() ==> final(self).is_marked(id),
            forall|other: FunctionId| #[trigger]
                old(self).is_marked(other) ==> final(self).is_marked(other),
    {
        let index: usize = id.0 as usize;
        if index < self.needed.len() && !self.needed[index] {
            proof {
                lemma_marked(self.needed@);
                lemma_mark(self.needed@, index as int);
            }
            self.needed.set(index, true);
            self.stack.push(id);
            proof {
                lemma_marked(self.needed@);
                let before = *old(self);
                assert(self.stack@[before.stack@.len() as int] == id);
                assert forall|i: int| 0 <= i < self.needed@.len()
                    && #[trigger] self.needed@[i] implies self.scope@.is_needed(
                    self.all@,
                    self.keep_all,
                    FunctionId(i as u32),
                ) by {
                    if i == index {
                        assert(FunctionId(i as u32) == id);
                    } else {
                        assert(before.needed@[i]);
                    }
                }
                assert forall|i: int| 0 <= i < self.stack@.len() implies (
                #[trigger] self.stack@[i]).0 < self.needed@.len()
                    && self.needed@[self.stack@[i].0 as int] by {
                    if i < before.stack@.len() {
                        assert(self.stack@[i] == before.stack@[i]);
                    }
                }
                assert forall|caller: FunctionId, callee: FunctionId|
                    self.is_marked(caller) && !self.stack@.contains(caller) && current
                        != Some(caller) && #[trigger] self.scope@.may_call(
                        self.all@,
                        caller,
                        callee,
                    ) implies self.is_marked(callee) by {
                    assert(caller != id) by {
                        assert(self.stack@.contains(id));
                    }
                    assert(before.is_marked(caller));
                    assert(!before.stack@.contains(caller)) by {
                        if before.stack@.contains(caller) {
                            let i = choose|i: int|
                                0 <= i < before.stack@.len() && before.stack@[i] == caller;
                            assert(self.stack@[i] == caller);
                        }
                    }
                }
            }
        }
    }

    /// Marks all that a function calls.
    fn add_callees(&mut self, id: FunctionId)
        requires
            old(self).wf(),
            old(self).closed_but(Some(id)),
            old(self).is_marked(id),
        ensures
            final(self).wf(),
            final(self).closed_but(None),
            final(self).same_world(*old(self)),
            final(self).measure() <= old(self).measure(),
            forall|other: FunctionId| #[trigger]
                old(self).is_marked(other) ==> final(self).is_marked(other),
    {
        let declared = match find_declared(self.all, id) {
            None => return,
            Some(declared) => declared,
        };
        let mut visitor = ReachabilityVisitor {
            scope: self.scope,
            found: Found { ids: Vec::new(), methods: false },
        };
        assert(visitor.found@ == Calls::none());
        visitor.visit_block(&declared.function.body);
        let found = visitor.found;
        let ghost calls = found@;
        let mut i: usize = 0;
        while i < found.ids.len()
            invariant
                i <= found.ids@.len(),
                calls == found@,
                self.wf(),
                self.closed_but(Some(id)),
                self.same_world(*old(self)),
                self.is_marked(id),
                self.measure() <= old(self).measure(),
                declared_as(self.all@, id, self.all@.len()) == Some(declared),
                calls == self.scope@.block_calls(Calls::none(), declared.function.body),
                forall|k: int|
                    0 <= k < i && (#[trigger] calls.ids[k]).0 < self.needed@.len()
                        ==> self.is_marked(calls.ids[k]),
                forall|other: FunctionId| #[trigger]
                    old(self).is_marked(other) ==> self.is_marked(other),
            decreases found.ids@.len() - i,
        {
            let callee = found.ids[i];
            proof {
                if callee.0 < self.scope@.signatures.len() {
                    assert(calls.ids.contains(calls.ids[i as int]));
                    assert(self.scope@.may_call(self.all@, id, callee));
                    lemma_callee_needed(self.scope@, self.all@, self.keep_all, id, callee);
                }
            }
            let ghost before = *self;
            self.add(callee, Ghost(Some(id)));
            assert forall|k: int| 0 <= k < i + 1 && (#[trigger] calls.ids[k]).0
                < self.needed@.len() implies self.is_marked(calls.ids[k]) by {
                if k < i {
                    assert(before.is_marked(calls.ids[k]));
                }
            }
            i = i + 1;
        }
        if found.methods {
            let methods = method_ids(self.scope);
            let mut j: usize = 0;
            while j < methods.len()
                invariant
                    j <= methods@.len(),
                    calls.methods,
                    self.wf(),
                    self.closed_but(Some(id)),
                    self.same_world(*old(self)),
                    self.is_marked(id),
                    self.measure() <= old(self).measure(),
                    declared_as(self.all@, id, self.all@.len()) == Some(declared),
                    calls == self.scope@.block_calls(Calls::none(), declared.function.body),
                    forall|k: int|
                        0 <= k < calls.ids.len() && (#[trigger] calls.ids[k]).0
                            < self.needed@.len() ==> self.is_marked(calls.ids[k]),
                    forall|k: int|
                        0 <= k < methods@.len() ==> self.scope@.is_method(#[trigger] methods@[k]),
                    forall|k: int|
                        0 <= k < j && (#[trigger] methods@[k]).0 < self.needed@.len()
                            ==> self.is_marked(methods@[k]),
                    forall|other: FunctionId| #[trigger]
                        old(self).is_marked(other) ==> self.is_marked(other),
                decreases methods@.len() - j,
            {
                let method = methods[j];
                proof {
                    if method.0 < self.scope@.signatures.len() {
                        assert(self.scope@.is_method(methods@[j as int]));
                        assert(self.scope@.may_call(self.all@, id, method));
                        lemma_callee_needed(self.scope@, self.all@, self.keep_all, id, method);
                    }
                }
                let ghost before = *self;
                self.add(method, Ghost(Some(id)));
                assert forall|k: int| 0 <= k < j + 1 && (#[trigger] methods@[k]).0
                    < self.needed@.len() implies self.is_marked(methods@[k]) by {
                    if k < j {
                        assert(before.is_marked(methods@[k]));
                    }
                }
                assert forall|k: int| 0 <= k < calls.ids.len() && (#[trigger] calls.ids[k]).0
                    < self.needed@.len() implies self.is_marked(calls.ids[k]) by {
                    assert(before.is_marked(calls.ids[k]));
                }
                j = j + 1;
            }
            assert forall|method: FunctionId| #[trigger]
                self.scope@.is_method(method) && method.0
                    < self.needed@.len() implies self.is_marked(method) by {
                assert(methods@.contains(method));
                let k = choose|k: int| 0 <= k < methods@.len() && methods@[k] == method;
                assert(self.is_marked(methods@[k]));
            }
        }
        assert forall|caller: FunctionId, callee: FunctionId|
            self.is_marked(caller) && !self.stack@.contains(caller)
                && #[trigger] self.scope@.may_call(self.all@, caller, callee) implies self.is_marked(
            callee,
        ) by {
            if caller == id {
                if calls.ids.contains(callee) {
                    let k = choose|k: int| 0 <= k < calls.ids.len() && calls.ids[k] == callee;
                    assert(calls.ids[k] == callee);
                }
            }
        }
    }
}

/// What a needed function calls is needed.
proof fn lemma_callee_needed<'hir>(
    names: Names<'hir>,
    all: Seq<Declared<'hir>>,
    keep_all: bool,
    caller: FunctionId,
    callee: FunctionId,
)
    requires
        names.is_needed(all, keep_all, caller),
        names.may_call(all, caller, callee),
    ensures
        names.is_needed(all, keep_all, callee),
{
    let steps = choose|steps: nat| #[trigger] names.reaches(all, keep_all, steps, caller);
    assert(names.reaches(all, keep_all, steps + 1, callee));
}

/// What is closed under calls and holds the roots holds all that is needed.
proof fn lemma_reached_marked<'hir>(list: Worklist<'_, 'hir>, steps: nat, id: FunctionId)
    requires
        list.wf(),
        list.closed_but(None),
        list.stack@.len() == 0,
        forall|root: FunctionId| #[trigger]
            list.scope@.is_root(list.all@, list.keep_all, root) ==> list.is_marked(root),
        list.scope@.reaches(list.all@, list.keep_all, steps, id),
    ensures
        list.is_marked(id),
    decreases steps,
{
    if steps == 0 {
        assert(list.scope@.is_root(list.all@, list.keep_all, id));
    } else if list.scope@.reaches(list.all@, list.keep_all, (steps - 1) as nat, id) {
        lemma_reached_marked(list, (steps - 1) as nat, id);
    } else {
        let caller = choose|caller: FunctionId|
            list.scope@.reaches(list.all@, list.keep_all, (steps - 1) as nat, caller)
                && #[trigger] list.scope@.may_call(list.all@, caller, id);
        lemma_reached_marked(list, (steps - 1) as nat, caller);
    }
}

/// The functions that a program needs: what can be reached from `main`, and if all is kept from
/// any function of the project.
pub fn build_demand<'hir>(
    scope: &Scope<'hir>,
    all: &Vec<Declared<'hir>>,
    keep_all: bool,
) -> (demand: DemandSet)
    ensures
        forall|id: FunctionId| #[trigger]
            demand.has(id) == scope@.is_needed(all@, keep_all, id),
        demand.needed@.len() == width(scope@),
{
    let mut needed: Vec<bool> = Vec::new();
    let mut i: usize = 0;
    while i < scope.signatures.len() && (i as u64) < 0x1_0000_0000
        invariant
            i <= scope.signatures@.len(),
            i <= u32::MAX + 1,
            needed@ == Seq::new(i as nat, |k: int| false),
        decreases scope.signatures@.len() - i,
    {
        needed.push(false);
        i = i + 1;
        assert(needed@ =~= Seq::new(i as nat, |k: int| false));
    }
    let mut list = Worklist { scope, all, keep_all, needed, stack: Vec::new() };
    let main = scope.resolve_function(scope.mangler.item("main").as_str());
    match main {
        Some(main) => {
            proof {
                if main.0 < scope@.signatures.len() {
                    assert(scope@.is_root(all@, keep_all, main));
                    assert(scope@.reaches(all@, keep_all, 0, main));
                }
            }
            list.add(main, Ghost(None));
        },
        None => {},
    }
    if keep_all {
        let mut j: usize = 0;
        while j < all.len()
            invariant
                j <= all@.len(),
                keep_all,
                list.wf(),
                list.closed_but(None),
                list.scope == scope,
                list.all == all,
                list.keep_all == keep_all,
                main == scope@.function_named(scope@.item("main"@)),
                main is Some && (main->0).0 < scope@.signatures.len() ==> list.is_marked(main->0),
                forall|k: int|
                    0 <= k < j && in_project(all@, (#[trigger] all@[k]).id) && all@[k].id.0
                        < scope@.signatures.len() ==> list.is_marked(all@[k].id),
            decreases all@.len() - j,
        {
            let id = all[j].id;
            let ghost before = list;
            if is_in_project(all, id) {
                proof {
                    if id.0 < scope@.signatures.len() {
                        assert(scope@.is_root(all@, keep_all, id));
                        assert(scope@.reaches(all@, keep_all, 0, id));
                    }
                }
                list.add(id, Ghost(None));
            }
            assert forall|k: int|
                0 <= k < j + 1 && in_project(all@, (#[trigger] all@[k]).id) && all@[k].id.0
                    < scope@.signatures.len() implies list.is_marked(all@[k].id) by {
                if k < j {
                    assert(before.is_marked(all@[k].id));
                }
            }
            assert(main is Some && (main->0).0 < scope@.signatures.len() ==> before.is_marked(
                main->0,
            ));
            j = j + 1;
        }
    }
    assert forall|root: FunctionId| #[trigger]
        scope@.is_root(all@, keep_all, root) implies list.is_marked(root) by {
        if scope@.function_named(scope@.item("main"@)) != Some(root) {
            lemma_declared_as(all@, root, all@.len());
        }
    }
    while list.stack.len() > 0
        invariant
            list.wf(),
            list.closed_but(None),
            list.scope == scope,
            list.all == all,
            list.keep_all == keep_all,
            forall|root: FunctionId| #[trigger]
                scope@.is_root(all@, keep_all, root) ==> list.is_marked(root),
        decreases list.measure(),
    {
        let ghost before = list;
        match list.stack.pop() {
            Some(id) => {
                proof {
                    assert(before.stack@[before.stack@.len() - 1] == id);
                    assert forall|i: int| 0 <= i < list.stack@.len() implies (
                    #[trigger] list.stack@[i]).0 < list.needed@.len()
                        && list.needed@[list.stack@[i].0 as int] by {
                        assert(list.stack@[i] == before.stack@[i]);
                    }
                    assert forall|caller: FunctionId, callee: FunctionId|
                        list.is_marked(caller) && !list.stack@.contains(caller) && Some(id)
                            != Some(caller) && #[trigger] list.scope@.may_call(
                            list.all@,
                            caller,
                            callee,
                        ) implies list.is_marked(callee) by {
                        assert(!before.stack@.contains(caller)) by {
                            if before.stack@.contains(caller) {
                                let i = choose|i: int|
                                    0 <= i < before.stack@.len() && before.stack@[i] == caller;
                                assert(list.stack@[i] == caller);
                            }
                        }
                        assert(before.is_marked(caller));
                    }
                    assert(list.is_marked(id));
                    lemma_marked(list.needed@);
                }
                let ghost popped = list;
                list.add_callees(id);
                assert forall|root: FunctionId| #[trigger]
                    scope@.is_root(all@, keep_all, root) implies list.is_marked(root) by {
                    assert(before.is_marked(root));
                    assert(popped.is_marked(root));
                }
            },
            None => {},
        }
    }
    let demand = DemandSet { needed: list.needed };
    assert forall|id: FunctionId| #[trigger]
        demand.has(id) == scope@.is_needed(all@, keep_all, id) by {
        if scope@.is_needed(all@, keep_all, id) {
            let steps = choose|steps: nat| #[trigger] scope@.reaches(all@, keep_all, steps, id);
            lemma_reached_marked(list, steps, id);
            assert(list.is_marked(id));
        }
        if demand.has(id) {
            assert(list.needed@[id.0 as int]);
            assert(FunctionId(id.0) == id);
        }
    }
    demand
}

proof fn lemma_declared_as(all: Seq<Declared>, id: FunctionId, end: nat)
    ensures
        match declared_as(all, id, end) {
            Some(declared) => exists|k: int|
                0 <= k < all.len() && #[trigger] all[k] == declared && declared.id == id,
            None => true,
        },
    decreases end,
{
    if end > 0 && end <= all.len() && all[end - 1].id != id {
        lemma_declared_as(all, id, (end - 1) as nat);
    }
}

/// A program needs what it starts from, and whatever a function that it needs calls.
pub proof fn lemma_demand_closed<'hir>(
    names: Names<'hir>,
    all: Seq<Declared<'hir>>,
    keep_all: bool,
    caller: FunctionId,
    callee: FunctionId,
)
    ensures
        names.is_root(all, keep_all, caller) ==> names.is_needed(all, keep_all, caller),
        names.is_needed(all, keep_all, caller) && names.may_call(all, caller, callee)
            ==> names.is_needed(all, keep_all, callee),
{
    if names.is_root(all, keep_all, caller) {
        assert(names.reaches(all, keep_all, 0, caller));
    }
    if names.is_needed(all, keep_all, caller) && names.may_call(all, caller, callee) {
        lemma_callee_needed(names, all, keep_all, caller, callee);
    }
}

/// A program needs nothing else: whatever holds of all it starts from, and of all that a
/// function calls of which it holds, holds of every function that the program needs.
pub proof fn lemma_demand_least<'hir>(
    names: Names<'hir>,
    all: Seq<Declared<'hir>>,
    keep_all: bool,
    holds: spec_fn(FunctionId) -> bool,
    id: FunctionId,
)
    requires
        forall|root: FunctionId| #[trigger] names.is_root(all, keep_all, root) ==> holds(root),
        forall|caller: FunctionId, callee: FunctionId|
            holds(caller) && #[trigger] names.may_call(all, caller, callee) ==> holds(callee),
        names.is_needed(all, keep_all, id),
    ensures
        holds(id),
{
    let steps = choose|steps: nat| #[trigger] names.reaches(all, keep_all, steps, id);
    lemma_reached_holds(names, all, keep_all, holds, steps, id);
}

proof fn lemma_reached_holds<'hir>(
    names: Names<'hir>,
    all: Seq<Declared<'hir>>,
    keep_all: bool,
    holds: spec_fn(FunctionId) -> bool,
    steps: nat,
    id: FunctionId,
)
    requires
        forall|root: FunctionId| #[trigger] names.is_root(all, keep_all, root) ==> holds(root),
        forall|caller: FunctionId, callee: FunctionId|
            holds(caller) && #[trigger] names.may_call(all, caller, callee) ==> holds(callee),
        names.reaches(all, keep_all, steps, id),
    ensures
        holds(id),
    decreases steps,
{
    if steps == 0 {
        assert(names.is_root(all, keep_all, id));
    } else if names.reaches(all, keep_all, (steps - 1) as nat, id) {
        lemma_reached_holds(names, all, keep_all, holds, (steps - 1) as nat, id);
    } else {
        let caller = choose|caller: FunctionId|
            names.reaches(all, keep_all, (steps - 1) as nat, caller) && #[trigger] names.may_call(
                all,
                caller,
                id,
            );
        lemma_reached_holds(names, all, keep_all, holds, (steps - 1) as nat, caller);
    }
}

} // verus!
