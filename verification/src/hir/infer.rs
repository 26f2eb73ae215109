//! Inference of integer types inside one body.

use crate::hir::types::{Type, TypeKind};
use vstd::prelude::*;

verus! {

/// One inference variable of the union-find forest.
#[derive(Debug, Clone, Copy)]
pub struct IntVar {
    parent: usize,
    /// The concrete integer type of the class, set once unified.
    /// Only meaningful on a class root
    value: Option<Type>,
}

/// Union-find table of integer inference variables for a single body.
///
/// Each variable arises from an un-annotated integer literal and is unified with a concrete
/// integer type as its uses are lowered. Variables that are never constrained default to `i32`.
///
/// `rank` bounds the distance of a variable to its root: it shrinks along every parent link.
pub struct InferTable {
    vars: Vec<IntVar>,
    rank: Ghost<Seq<nat>>,
}

/// What an inference table knows: for every variable the representative of its class, and the
/// integer type the class has been pinned to.
#[verifier::ext_equal]
pub ghost struct Inference {
    pub root: Seq<int>,
    pub value: Seq<Option<Type>>,
}

impl Inference {
    pub open spec fn empty() -> Inference {
        Inference { root: Seq::empty(), value: Seq::empty() }
    }

    pub open spec fn len(self) -> nat {
        self.root.len()
    }

    /// Every class is represented by one of its members, and its members agree on the value.
    pub open spec fn consistent(self) -> bool {
        &&& self.value.len() == self.root.len()
        &&& forall|i: int|
            0 <= i < self.root.len() ==> {
                let r = #[trigger] self.root[i];
                0 <= r < self.root.len() && self.root[r] == r && self.value[i] == self.value[r]
            }
    }

    /// A new variable, alone in its class and not pinned.
    pub open spec fn fresh(self) -> (Inference, Type) {
        (
            Inference {
                root: self.root.push(self.len() as int),
                value: self.value.push(None),
            },
            Type::new(TypeKind::Infer(self.len() as u32)),
        )
    }

    /// The type a variable has been pinned to.
    pub open spec fn value_of(self, var: u32) -> Option<Type> {
        if var < self.len() {
            self.value[var as int]
        } else {
            None
        }
    }

    /// Gives all variables of the class of `from` the representative and value of `to`.
    pub open spec fn merge(self, from: int, to: int) -> Inference {
        Inference {
            root: Seq::new(
                self.len(),
                |i: int|
                    if self.root[i] == self.root[from] {
                        self.root[to]
                    } else {
                        self.root[i]
                    },
            ),
            value: Seq::new(
                self.len(),
                |i: int|
                    if self.root[i] == self.root[from] {
                        self.value[to]
                    } else {
                        self.value[i]
                    },
            ),
        }
    }

    /// Pins the class of `var` to `typ`.
    pub open spec fn pin(self, var: int, typ: Type) -> Inference {
        Inference {
            root: self.root,
            value: Seq::new(
                self.len(),
                |i: int|
                    if self.root[i] == self.root[var] {
                        Some(typ)
                    } else {
                        self.value[i]
                    },
            ),
        }
    }

    /// Requires the class of `var` to be `concrete`, and whether it can be.
    ///
    /// A divergent type leaves the class open, an integer type pins it, anything else conflicts.
    pub open spec fn constrain(self, var: u32, concrete: Type) -> (Inference, bool) {
        if concrete.diverges() {
            (self, true)
        } else if !concrete.is_integer() || var >= self.len() {
            (self, false)
        } else {
            match self.value[var as int] {
                Some(existing) => (self, existing == concrete),
                None => (self.pin(var as int, concrete), true),
            }
        }
    }

    /// Puts two variables in one class, and whether that is possible.
    pub open spec fn union(self, a: u32, b: u32) -> (Inference, bool) {
        if a >= self.len() || b >= self.len() {
            (self, false)
        } else if self.root[a as int] == self.root[b as int] {
            (self, true)
        } else {
            match (self.value[a as int], self.value[b as int]) {
                (Some(x), Some(y)) => if x == y {
                    (self.merge(b as int, a as int), true)
                } else {
                    (self, false)
                },
                (Some(_), None) => (self.merge(b as int, a as int), true),
                (None, _) => (self.merge(a as int, b as int), true),
            }
        }
    }

    /// Makes two types equal if that is possible, and whether it is.
    pub open spec fn unify(self, a: Type, b: Type) -> (Inference, bool) {
        match (a.infer_var(), b.infer_var()) {
            (Some(va), Some(vb)) => self.union(va, vb),
            (Some(va), None) => self.constrain(va, b),
            (None, Some(vb)) => self.constrain(vb, a),
            (None, None) => (self, a == b),
        }
    }

    /// The type a variable stands for as far as it is known.
    pub open spec fn resolve_shallow(self, typ: Type) -> Type {
        match typ.infer_var() {
            Some(var) => match self.value_of(var) {
                Some(value) => value,
                None => typ,
            },
            None => typ,
        }
    }

    /// The integer type a variable stands for, `i32` if nothing pinned it.
    pub open spec fn resolve_or_default(self, typ: Type) -> Type {
        match typ.infer_var() {
            None => typ,
            Some(var) => match self.value_of(var) {
                Some(value) if value.is_integer() => value,
                _ => Type::new(TypeKind::I32),
            },
        }
    }

    /// The values of all classes are integer types.
    pub open spec fn integral(self) -> bool {
        forall|i: int|
            0 <= i < self.value.len() ==> match #[trigger] self.value[i] {
                Some(typ) => typ.is_integer(),
                None => true,
            }
    }
}

/// Unification succeeds in making two types resolve alike: after it, either both are the same
/// type, or both are variables of one class, or one of them diverges.
pub proof fn lemma_unify_agrees(table: Inference, a: Type, b: Type)
    requires
        table.consistent(),
        table.unify(a, b).1,
    ensures
        ({
            let after = table.unify(a, b).0;
            ||| after.resolve_shallow(a) == after.resolve_shallow(b)
            ||| a.diverges()
            ||| b.diverges()
            ||| match (a.infer_var(), b.infer_var()) {
                (Some(va), Some(vb)) => after.root[va as int] == after.root[vb as int],
                _ => false,
            }
        }),
{
}

/// A failed unification changes nothing.
pub proof fn lemma_failed_unify_keeps(table: Inference, a: Type, b: Type)
    requires
        !table.unify(a, b).1,
    ensures
        table.unify(a, b).0 == table,
{
}

/// Once a variable is pinned no later unification changes its type, and classes only grow.
pub proof fn lemma_unify_monotone(table: Inference, a: Type, b: Type, i: int, j: int)
    requires
        table.consistent(),
        0 <= i < table.len(),
        0 <= j < table.len(),
    ensures
        table.unify(a, b).0.consistent(),
        table.unify(a, b).0.len() == table.len(),
        table.value[i] is Some ==> table.unify(a, b).0.value[i] == table.value[i],
        table.root[i] == table.root[j] ==> table.unify(a, b).0.root[i] == table.unify(a, b).0.root[j],
{
}

/// Only integer types are ever inferred.
pub proof fn lemma_unify_integral(table: Inference, a: Type, b: Type)
    requires
        table.consistent(),
        table.integral(),
    ensures
        table.unify(a, b).0.integral(),
{
}

/// A variable that nothing pinned stands for `i32`.
pub proof fn lemma_open_defaults(table: Inference, var: u32)
    requires
        table.value_of(var) is None,
    ensures
        table.resolve_or_default(Type::new(TypeKind::Infer(var))) == Type::new(TypeKind::I32),
{
    Type::lemma_round_trip(TypeKind::Infer(var));
}

/// Unification is symmetric in what it accepts.
pub proof fn lemma_unify_symmetric(table: Inference, a: Type, b: Type)
    requires
        table.consistent(),
    ensures
        table.unify(a, b).1 == table.unify(b, a).1,
{
}

impl InferTable {
    pub closed spec fn wf(self) -> bool {
        &&& self.rank@.len() == self.vars@.len()
        &&& forall|i: int|
            0 <= i < self.vars@.len() ==> {
                let p = (#[trigger] self.vars@[i]).parent;
                &&& p < self.vars@.len()
                &&& (p != i ==> self.rank@[p as int] < self.rank@[i])
                &&& (self.vars@[i].value matches Some(typ) ==> typ.is_integer())
            }
    }

    /// A table only pins variables to integer types.
    pub proof fn lemma_integral(self)
        requires
            self.wf(),
        ensures
            self@.integral(),
            self@.value.len() == self@.len(),
    {
        assert forall|i: int| 0 <= i < self@.value.len() implies match #[trigger] self@.value[i] {
            Some(typ) => typ.is_integer(),
            None => true,
        } by {
            self.lemma_find(i);
        }
    }

    /// The root of the tree that `var` stands in.
    spec fn find(vars: Seq<IntVar>, rank: Seq<nat>, var: int) -> int
        decreases rank[var],
    {
        if 0 <= var < vars.len() && vars[var].parent != var && vars[var].parent < vars.len()
            && rank[vars[var].parent as int] < rank[var] {
            InferTable::find(vars, rank, vars[var].parent as int)
        } else {
            var
        }
    }

    spec fn root_of(self, var: int) -> int {
        InferTable::find(self.vars@, self.rank@, var)
    }

    spec fn inference(self) -> Inference {
        Inference {
            root: Seq::new(self.vars@.len(), |i: int| self.root_of(i)),
            value: Seq::new(self.vars@.len(), |i: int| self.vars@[self.root_of(i)].value),
        }
    }

    proof fn lemma_find(self, var: int)
        requires
            self.wf(),
            0 <= var < self.vars@.len(),
        ensures
            0 <= self.root_of(var) < self.vars@.len(),
            self.vars@[self.root_of(var)].parent == self.root_of(var),
            self.root_of(self.root_of(var)) == self.root_of(var),
            self.rank@[self.root_of(var)] <= self.rank@[var],
            self.root_of(self.vars@[var].parent as int) == self.root_of(var),
        decreases self.rank@[var],
    {
        if self.vars@[var].parent != var {
            self.lemma_find(self.vars@[var].parent as int);
        }
    }

    /// Shortening a path keeps all roots.
    proof fn lemma_shortcut(self, other: InferTable, changed: int, var: int)
        requires
            self.wf(),
            other.wf(),
            other.rank@ == self.rank@,
            0 <= changed < self.vars@.len(),
            0 <= var < self.vars@.len(),
            self.vars@[changed].parent != changed,
            other.vars@ == self.vars@.update(
                changed,
                IntVar {
                    parent: self.vars@[self.vars@[changed].parent as int].parent,
                    value: self.vars@[changed].value,
                },
            ),
        ensures
            other.root_of(var) == self.root_of(var),
        decreases self.rank@[var],
    {
        let p = self.vars@[var].parent as int;
        if p != var {
            self.lemma_shortcut(other, changed, p);
            if var == changed {
                let g = self.vars@[p].parent as int;
                self.lemma_shortcut(other, changed, g);
            }
        }
    }

    fn root(&mut self, var: usize) -> (root: usize)
        requires
            old(self).wf(),
            var < old(self).vars@.len(),
        ensures
            final(self).wf(),
            final(self).vars@.len() == old(self).vars@.len(),
            final(self).inference() == old(self).inference(),
            root == old(self).root_of(var as int),
            root == final(self).root_of(var as int),
            root < final(self).vars@.len(),
            final(self).vars@[root as int].parent == root,
            final(self).root_of(root as int) == root,
    {
        let mut current: usize = var;
        while self.vars[current].parent != current
            invariant
                self.wf(),
                self.vars@.len() == old(self).vars@.len(),
                self.inference() =~= old(self).inference(),
                forall|i: int| 0 <= i < self.vars@.len() ==> #[trigger] self.root_of(i) == old(self).root_of(i),
                current < self.vars@.len(),
                self.root_of(current as int) == old(self).root_of(var as int),
            decreases self.rank@[current as int],
        {
            let ghost before = *self;
            let parent: usize = self.vars[current].parent;
            let grandparent: usize = self.vars[parent].parent;
            let value = self.vars[current].value;
            self.vars.set(current, IntVar { parent: grandparent, value });
            proof {
                assert forall|i: int| 0 <= i < self.vars@.len() implies #[trigger] self.root_of(i)
                    == before.root_of(i) by {
                    before.lemma_shortcut(*self, current as int, i);
                    before.lemma_find(i);
                }
                assert forall|i: int| 0 <= i < self.vars@.len() implies self.vars@[self.root_of(
                    i,
                )].value == before.vars@[before.root_of(i)].value by {
                    before.lemma_find(i);
                }
                before.lemma_find(current as int);
                before.lemma_find(parent as int);
                assert(self.inference() =~= before.inference());
            }
            current = grandparent;
        }
        current
    }

    fn push(&mut self)
        requires
            old(self).wf(),
        ensures
            final(self).wf(),
            final(self).inference() == old(self).inference().fresh().0,
    {
        let ghost before = *self;
        let parent: usize = self.vars.len();
        self.vars.push(IntVar { parent, value: None });
        self.rank = Ghost(self.rank@.push(0));
        proof {
            assert forall|i: int| 0 <= i < before.vars@.len() implies #[trigger] self.root_of(i)
                == before.root_of(i) by {
                assert(self.vars@.take(before.vars@.len() as int) =~= before.vars@);
                assert(self.rank@.take(before.vars@.len() as int) =~= before.rank@);
                InferTable::lemma_extended(before, *self, i);
            }
            assert forall|i: int| 0 <= i < before.vars@.len() implies 0 <= #[trigger] before.root_of(i)
                < before.vars@.len() by {
                before.lemma_find(i);
            }
            assert(self.inference() =~= before.inference().fresh().0);
        }
    }

    proof fn lemma_extended(before: InferTable, after: InferTable, var: int)
        requires
            before.wf(),
            after.wf(),
            0 <= var < before.vars@.len() < after.vars@.len(),
            after.vars@.take(before.vars@.len() as int) == before.vars@,
            after.rank@.take(before.vars@.len() as int) == before.rank@,
        ensures
            after.root_of(var) == before.root_of(var),
        decreases before.rank@[var],
    {
        assert(after.vars@.take(before.vars@.len() as int)[var] == after.vars@[var]);
        assert(after.rank@.take(before.vars@.len() as int)[var] == after.rank@[var]);
        let p = before.vars@[var].parent as int;
        assert(after.rank@.take(before.vars@.len() as int)[p] == after.rank@[p]);
        if p != var {
            InferTable::lemma_extended(before, after, p);
        }
    }

    fn pin(&mut self, root: usize, typ: Type)
        requires
            old(self).wf(),
            root < old(self).vars@.len(),
            old(self).root_of(root as int) == root,
            typ.is_integer(),
        ensures
            final(self).wf(),
            final(self).inference() == old(self).inference().pin(root as int, typ),
    {
        let ghost before = *self;
        let parent: usize = self.vars[root].parent;
        self.vars.set(root, IntVar { parent, value: Some(typ) });
        proof {
            assert forall|i: int| 0 <= i < self.vars@.len() implies #[trigger] self.root_of(i)
                == before.root_of(i) by {
                InferTable::lemma_same_links(before, *self, i);
            }
            assert(self.inference() =~= before.inference().pin(root as int, typ)) by {
                assert forall|i: int| 0 <= i < self.vars@.len() implies 0 <= #[trigger] before.root_of(
                    i,
                ) < self.vars@.len() by {
                    before.lemma_find(i);
                }
            }
        }
    }

    proof fn lemma_same_links(before: InferTable, after: InferTable, var: int)
        requires
            before.wf(),
            after.wf(),
            before.vars@.len() == after.vars@.len(),
            before.rank@ == after.rank@,
            forall|i: int| 0 <= i < before.vars@.len() ==> (#[trigger] before.vars@[i]).parent == after.vars@[i].parent,
            0 <= var < before.vars@.len(),
        ensures
            after.root_of(var) == before.root_of(var),
        decreases before.rank@[var],
    {
        let p = before.vars@[var].parent as int;
        if p != var {
            InferTable::lemma_same_links(before, after, p);
        }
    }

    /// Hangs the root `child` under the root `parent`.
    fn link(&mut self, child: usize, parent: usize)
        requires
            old(self).wf(),
            child < old(self).vars@.len(),
            parent < old(self).vars@.len(),
            child != parent,
            old(self).root_of(child as int) == child,
            old(self).root_of(parent as int) == parent,
            old(self).vars@[child as int].parent == child,
            old(self).vars@[parent as int].parent == parent,
        ensures
            final(self).wf(),
            final(self).inference() == old(self).inference().merge(child as int, parent as int),
    {
        let ghost before = *self;
        let value = self.vars[child].value;
        self.vars.set(child, IntVar { parent, value });
        let ghost lift = before.rank@[parent as int] + 1;
        self.rank =
        Ghost(
            Seq::new(
                before.rank@.len(),
                |i: int|
                    if before.root_of(i) == child {
                        (before.rank@[i] + lift) as nat
                    } else {
                        before.rank@[i]
                    },
            ),
        );
        proof {
            assert forall|i: int| 0 <= i < before.vars@.len() implies {
                let p = (#[trigger] self.vars@[i]).parent;
                &&& p < self.vars@.len()
                &&& (p != i ==> self.rank@[p as int] < self.rank@[i])
            } by {
                before.lemma_find(i);
                assert(before.vars@[i].parent < before.vars@.len());
            }
            assert forall|i: int| 0 <= i < self.vars@.len() implies #[trigger] self.root_of(i) == (
            if before.root_of(i) == child {
                parent as int
            } else {
                before.root_of(i)
            }) && 0 <= before.root_of(i) < self.vars@.len() by {
                before.lemma_find(i);
                InferTable::lemma_linked(before, *self, child as int, parent as int, i);
            }
            assert(self.inference() =~= before.inference().merge(child as int, parent as int));
        }
    }

    proof fn lemma_linked(before: InferTable, after: InferTable, child: int, parent: int, var: int)
        requires
            before.wf(),
            after.wf(),
            before.vars@.len() == after.vars@.len(),
            0 <= child < before.vars@.len(),
            0 <= parent < before.vars@.len(),
            0 <= var < before.vars@.len(),
            child != parent,
            before.vars@[child].parent == child,
            before.vars@[parent].parent == parent,
            after.vars@[child].parent == parent,
            forall|i: int| 0 <= i < before.vars@.len() && i != child ==> (#[trigger] after.vars@[i]).parent == before.vars@[i].parent,
        ensures
            after.root_of(var) == (if before.root_of(var) == child {
                parent
            } else {
                before.root_of(var)
            }),
        decreases before.rank@[var],
    {
        let p = before.vars@[var].parent as int;
        if p != var {
            InferTable::lemma_linked(before, after, child, parent, p);
            assert(after.vars@[var].parent == p);
        } else if var == child {
            assert(after.root_of(parent) == parent) by {
                assert(after.vars@[parent].parent == parent);
            }
        } else {
            assert(after.vars@[var].parent == var);
        }
    }
}

impl View for InferTable {
    type V = Inference;

    closed spec fn view(&self) -> Inference {
        self.inference()
    }
}

impl InferTable {
    pub fn new() -> (table: Self)
        ensures
            table.wf(),
            table@ == Inference::empty(),
    {
        let table = InferTable { vars: Vec::new(), rank: Ghost(Seq::empty()) };
        assert(table.inference() =~= Inference::empty());
        table
    }

    /// What a well-formed table knows is consistent.
    pub proof fn lemma_consistent(self)
        requires
            self.wf(),
        ensures
            self@.consistent(),
    {
        assert forall|i: int| 0 <= i < self@.root.len() implies {
            let r = #[trigger] self@.root[i];
            0 <= r < self@.root.len() && self@.root[r] == r && self@.value[i] == self@.value[r]
        } by {
            self.lemma_find(i);
        }
    }

    pub fn fresh(&mut self) -> (typ: Type)
        requires
            old(self).wf(),
        ensures
            final(self).wf(),
            (final(self)@, typ) == old(self)@.fresh(),
    {
        let id: u32 = #[verifier::truncate] (self.vars.len() as u32);
        self.push();
        Type::new(TypeKind::Infer(id))
    }

    pub fn resolve_shallow(&mut self, typ: Type) -> (resolved: Type)
        requires
            old(self).wf(),
        ensures
            final(self).wf(),
            final(self)@ == old(self)@,
            resolved == old(self)@.resolve_shallow(typ),
    {
        match typ.infer_var() {
            Some(var) => match self.value_of(var) {
                Some(value) => value,
                None => typ,
            },
            None => typ,
        }
    }

    pub fn resolve_or_default(&mut self, typ: Type) -> (resolved: Type)
        requires
            old(self).wf(),
        ensures
            final(self).wf(),
            final(self)@ == old(self)@,
            resolved == old(self)@.resolve_or_default(typ),
    {
        proof {
            self.lemma_integral();
        }
        let resolved = self.resolve_shallow(typ);
        if resolved.is_infer() {
            Type::new(TypeKind::I32)
        } else {
            resolved
        }
    }

    /// Unifies two types, constraining any inference variable involved.
    pub fn unify(&mut self, a: Type, b: Type) -> (unified: Result<(), ()>)
        requires
            old(self).wf(),
        ensures
            final(self).wf(),
            (final(self)@, unified is Ok) == old(self)@.unify(a, b),
    {
        match (a.infer_var(), b.infer_var()) {
            (Some(va), Some(vb)) => self.union(va, vb),
            (Some(va), None) => self.constrain(va, b),
            (None, Some(vb)) => self.constrain(vb, a),
            (None, None) => if a == b {
                Ok(())
            } else {
                Err(())
            },
        }
    }

    fn value_of(&mut self, var: u32) -> (value: Option<Type>)
        requires
            old(self).wf(),
        ensures
            final(self).wf(),
            final(self)@ == old(self)@,
            value == old(self)@.value_of(var),
    {
        let index: usize = var as usize;
        if index < self.vars.len() {
            let root: usize = self.root(index);
            let value = self.vars[root].value;
            assert(self.inference().value[index as int] == self.vars@[root as int].value);
            value
        } else {
            None
        }
    }

    fn constrain(&mut self, var: u32, concrete: Type) -> (constrained: Result<(), ()>)
        requires
            old(self).wf(),
        ensures
            final(self).wf(),
            (final(self)@, constrained is Ok) == old(self)@.constrain(var, concrete),
    {
        if concrete.diverges() {
            return Ok(());
        }
        let index: usize = var as usize;
        if !concrete.is_integer() || index >= self.vars.len() {
            return Err(());
        }
        let root: usize = self.root(index);
        let ghost found = self.inference();
        assert(found.value[index as int] == self.vars@[root as int].value);
        assert(found.root[index as int] == root && found.root[root as int] == root);
        match self.vars[root].value {
            Some(existing) => if existing == concrete {
                Ok(())
            } else {
                Err(())
            },
            None => {
                self.pin(root, concrete);
                assert(found.pin(root as int, concrete) =~= found.pin(index as int, concrete));
                Ok(())
            },
        }
    }

    fn union(&mut self, a: u32, b: u32) -> (joined: Result<(), ()>)
        requires
            old(self).wf(),
        ensures
            final(self).wf(),
            (final(self)@, joined is Ok) == old(self)@.union(a, b),
    {
        let ia: usize = a as usize;
        let ib: usize = b as usize;
        if ia >= self.vars.len() || ib >= self.vars.len() {
            return Err(());
        }
        let ra: usize = self.root(ia);
        let ghost middle = *self;
        let rb: usize = self.root(ib);
        let ghost found = self.inference();
        proof {
            assert(found.root[ia as int] == middle.inference().root[ia as int]);
            assert(found.root[ib as int] == middle.inference().root[ib as int]);
            self.lemma_find(ia as int);
            self.lemma_find(ib as int);
            assert(found.value[ia as int] == self.vars@[ra as int].value);
            assert(found.value[ib as int] == self.vars@[rb as int].value);
            assert(found.root[ra as int] == ra && found.root[rb as int] == rb);
        }
        if ra == rb {
            return Ok(());
        }
        assert(found.merge(rb as int, ra as int) =~= found.merge(ib as int, ia as int)) by {
            assert(found.value[ra as int] == found.value[ia as int]);
        }
        assert(found.merge(ra as int, rb as int) =~= found.merge(ia as int, ib as int)) by {
            assert(found.value[rb as int] == found.value[ib as int]);
        }
        match (self.vars[ra].value, self.vars[rb].value) {
            (Some(x), Some(y)) => if x == y {
                self.link(rb, ra);
                Ok(())
            } else {
                Err(())
            },
            (Some(_), None) => {
                self.link(rb, ra);
                Ok(())
            },
            (None, _) => {
                self.link(ra, rb);
                Ok(())
            },
        }
    }
}

} // verus!
