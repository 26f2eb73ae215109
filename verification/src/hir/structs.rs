//! Collection of structs: names first, then fields in dependency order.

use crate::ast;
use crate::hir::error::{seen, HirError, HirErrorKind};
use crate::hir::scope::{Names, Outcome, Scope};
use crate::hir::symbols::SymbolId;
use crate::hir::tree::StructField;
use crate::hir::type_resolver::{contains_symbol, seen_list, ResolveCtx, MAX_DEPTH};
use crate::hir::types::{StructId, Type, TypeKind};
use vstd::prelude::*;

verus! {

broadcast use vstd::std_specs::hash::group_hash_axioms;

#[derive(Debug, Clone, Copy, PartialEq, Eq, Structural)]
pub enum Visit {
    Unvisited,
    Visiting,
    Visited,
}

/// A struct of the module at hand, under its id.
pub type StructDecl<'hir> = (StructId, &'hir ast::Struct<'hir>);

/// The position of a struct in the batch being lowered.
pub open spec fn batch_position<'hir>(batch: Seq<StructDecl<'hir>>, id: StructId, at: int) -> Option<
    usize,
>
    decreases batch.len() - at,
{
    if at < 0 || at >= batch.len() {
        None
    } else if batch[at].0 == id {
        Some(at as usize)
    } else {
        batch_position(batch, id, at + 1)
    }
}

fn find_in_batch<'hir>(batch: &Vec<StructDecl<'hir>>, id: StructId) -> (position: Option<usize>)
    ensures
        position == batch_position(batch@, id, 0),
        position matches Some(index) ==> index < batch@.len(),
{
    let mut i: usize = 0;
    while i < batch.len()
        invariant
            i <= batch@.len(),
            batch_position(batch@, id, 0) == batch_position(batch@, id, i as int),
        decreases batch@.len() - i,
    {
        if batch[i].0 == id {
            return Some(i);
        }
        i += 1;
    }
    None
}

/// The states with the one at `index` changed.
pub open spec fn mark(states: Seq<Visit>, index: usize, state: Visit) -> Seq<Visit> {
    if index < states.len() {
        states.update(index as int, state)
    } else {
        states
    }
}

pub fn set_mark(states: &mut Vec<Visit>, index: usize, state: Visit)
    ensures
        final(states)@ == mark(old(states)@, index, state),
{
    if index < states.len() {
        states.set(index, state);
    }
}

impl<'hir> Names<'hir> {
    /// Whether a struct or enum has the given name.
    pub open spec fn is_nominal(self, symbol: SymbolId) -> bool {
        self.struct_map.contains_key(symbol.0) || self.enum_map.contains_key(symbol.0)
    }

    /// Declares the structs of a module from position `at` on. Generic ones become templates.
    pub open spec fn declare_structs(
        self,
        structs: Seq<&'hir ast::Struct<'hir>>,
        at: nat,
        batch: Seq<StructDecl<'hir>>,
    ) -> (Names<'hir>, Outcome<Seq<StructDecl<'hir>>>)
        decreases structs.len() - at,
    {
        if at >= structs.len() {
            (self, Ok(batch))
        } else {
            let declaration = structs[at as int];
            let (names, symbol) = self.insert(declaration.name@);
            if names.is_nominal(symbol) {
                let duplicate = HirError::new(
                    HirErrorKind::DuplicateStruct { name: declaration.name@ },
                    declaration.span,
                );
                match names.soft(duplicate) {
                    (names, Err(error)) => (names, Err(error)),
                    (names, Ok(_)) => names.declare_structs(structs, at + 1, batch),
                }
            } else if declaration.generics@.len() > 0 {
                let names = Names {
                    generic_structs: names.generic_structs.insert(symbol.0, declaration),
                    ..names
                };
                names.declare_structs(structs, at + 1, batch)
            } else {
                let (names, id) = names.declare_struct(
                    symbol,
                    declaration.span,
                    declaration.repr,
                    seq![],
                );
                names.declare_structs(structs, at + 1, batch.push((id, declaration)))
            }
        }
    }

    /// Lowers the fields of one struct of the batch, and of those it holds by value.
    pub open spec fn lower_struct(
        self,
        batch: Seq<StructDecl<'hir>>,
        index: usize,
        states: Seq<Visit>,
        fuel: nat,
    ) -> (Names<'hir>, Seq<Visit>, Outcome<()>)
        decreases fuel, 1nat, 0nat,
    {
        if index >= batch.len() || index >= states.len() {
            (self, states, Ok(()))
        } else {
            let (id, declaration) = batch[index as int];
            let circular = HirError::new(
                HirErrorKind::CircularStruct { name: declaration.name@ },
                declaration.span,
            );
            match states[index as int] {
                Visit::Visited => (self, states, Ok(())),
                Visit::Visiting => (self, states, Err(circular)),
                Visit::Unvisited => if fuel == 0 {
                    (self, states, Err(circular))
                } else {
                    match self.struct_fields(
                        batch,
                        declaration.fields@,
                        0,
                        mark(states, index, Visit::Visiting),
                        seq![],
                        seq![],
                        fuel,
                    ) {
                        (names, states, Err(error)) => (names, states, Err(error)),
                        (names, states, Ok(fields)) => (
                            names.set_fields(id.0 as int, fields),
                            mark(states, index, Visit::Visited),
                            Ok(()),
                        ),
                    }
                },
            }
        }
    }

    /// The type of one field, after the struct it holds by value has been lowered.
    pub open spec fn field_annotation(
        self,
        batch: Seq<StructDecl<'hir>>,
        field: ast::Field<'hir>,
        states: Seq<Visit>,
        fuel: nat,
    ) -> (Names<'hir>, Seq<Visit>, Outcome<Type>)
        decreases fuel, 0nat, 0nat,
    {
        let (names, typ) = self.resolve_or_poison(
            field.typ,
            ResolveCtx::root_spec(),
            MAX_DEPTH as nat,
        );
        match typ {
            Err(error) => (names, states, Err(error)),
            Ok(typ) => {
                let held = match typ.kind() {
                    TypeKind::Struct(dep) => batch_position(batch, dep, 0),
                    _ => None,
                };
                match held {
                    None => (names, states, Ok(typ)),
                    Some(dep) => if fuel == 0 {
                        (names, states, Ok(typ))
                    } else {
                        match names.lower_struct(batch, dep, states, (fuel - 1) as nat) {
                            (names, states, Ok(_)) => (names, states, Ok(typ)),
                            (names, states, Err(error)) => {
                                let (names, poisoned) = names.poison(error);
                                (names, states, poisoned)
                            },
                        }
                    },
                }
            },
        }
    }

    /// The fields of a struct from position `at` on.
    pub open spec fn struct_fields(
        self,
        batch: Seq<StructDecl<'hir>>,
        declared: Seq<ast::Field<'hir>>,
        at: nat,
        states: Seq<Visit>,
        given: Seq<SymbolId>,
        fields: Seq<StructField>,
        fuel: nat,
    ) -> (Names<'hir>, Seq<Visit>, Outcome<Seq<StructField>>)
        decreases fuel, 0nat, declared.len() - at + 1,
    {
        if at >= declared.len() {
            (self, states, Ok(fields))
        } else {
            let field = declared[at as int];
            let (names, symbol) = self.insert(field.name@);
            if given.contains(symbol) {
                let duplicate = HirError::new(
                    HirErrorKind::DuplicateField { name: field.name@ },
                    field.span,
                );
                match names.soft(duplicate) {
                    (names, Err(error)) => (names, states, Err(error)),
                    (names, Ok(_)) => names.struct_fields(
                        batch,
                        declared,
                        at + 1,
                        states,
                        given,
                        fields,
                        fuel,
                    ),
                }
            } else {
                match names.field_annotation(batch, field, states, fuel) {
                    (names, states, Err(error)) => (names, states, Err(error)),
                    (names, states, Ok(typ)) => names.struct_fields(
                        batch,
                        declared,
                        at + 1,
                        states,
                        given.push(symbol),
                        fields.push(StructField { name: symbol, typ, offset: 0 }),
                        fuel,
                    ),
                }
            }
        }
    }

    /// Lowers the structs of a batch from position `at` on.
    pub open spec fn lower_structs(
        self,
        batch: Seq<StructDecl<'hir>>,
        at: nat,
        states: Seq<Visit>,
    ) -> (Names<'hir>, Outcome<()>)
        decreases batch.len() - at,
    {
        if at >= batch.len() {
            (self, Ok(()))
        } else {
            match self.lower_struct(batch, at as usize, states, batch.len()) {
                (names, _, Err(error)) => (names, Err(error)),
                (names, states, Ok(_)) => names.lower_structs(batch, at + 1, states),
            }
        }
    }

    /// No struct of the batch has been visited.
    pub open spec fn unvisited(len: nat) -> Seq<Visit> {
        Seq::new(len, |i: int| Visit::Unvisited)
    }
}

/// Whether what was looked at is left as it was.
pub open spec fn keeps_marks(before: Seq<Visit>, after: Seq<Visit>) -> bool {
    &&& before.len() == after.len()
    &&& forall|i: int|
        0 <= i < before.len() && before[i] != Visit::Unvisited ==> #[trigger] after[i] == before[i]
}

/// Whether a type is not a struct of the batch, or one that is done.
pub open spec fn type_done<'hir>(batch: Seq<StructDecl<'hir>>, typ: Type, states: Seq<Visit>) -> bool {
    match typ.kind() {
        TypeKind::Struct(dep) => match batch_position(batch, dep, 0) {
            Some(held) => held < states.len() && states[held as int] == Visit::Visited,
            None => true,
        },
        _ => true,
    }
}

/// Whether every struct of the batch that the fields hold by value is done.
pub open spec fn held_done<'hir>(
    batch: Seq<StructDecl<'hir>>,
    fields: Seq<StructField>,
    states: Seq<Visit>,
) -> bool {
    forall|i: int|
        0 <= i < fields.len() ==> type_done(batch, (#[trigger] fields[i]).typ, states)
}

proof fn lemma_batch_position<'hir>(batch: Seq<StructDecl<'hir>>, id: StructId, at: int)
    requires
        0 <= at,
        batch.len() <= usize::MAX,
    ensures
        batch_position(batch, id, at) matches Some(index) ==> index < batch.len(),
    decreases batch.len() - at,
{
    if at < batch.len() && batch[at].0 != id {
        lemma_batch_position(batch, id, at + 1);
    }
}

proof fn lemma_lower_struct<'hir>(
    names: Names<'hir>,
    batch: Seq<StructDecl<'hir>>,
    index: usize,
    states: Seq<Visit>,
    fuel: nat,
)
    requires
        states.len() == batch.len() <= usize::MAX,
        index < batch.len(),
    ensures
        ({
            let (_, after, outcome) = names.lower_struct(batch, index, states, fuel);
            keeps_marks(states, after) && (outcome is Ok ==> after[index as int] == Visit::Visited)
        }),
    decreases fuel, 1nat, 0nat,
{
    if states[index as int] == Visit::Unvisited && fuel > 0 {
        let declaration = batch[index as int].1;
        let entered = mark(states, index, Visit::Visiting);
        lemma_struct_fields(names, batch, declaration.fields@, 0, entered, seq![], seq![], fuel);
    }
}

proof fn lemma_field_annotation<'hir>(
    names: Names<'hir>,
    batch: Seq<StructDecl<'hir>>,
    field: ast::Field<'hir>,
    states: Seq<Visit>,
    fuel: nat,
)
    requires
        states.len() == batch.len() <= usize::MAX,
        fuel > 0,
    ensures
        ({
            let (_, after, outcome) = names.field_annotation(batch, field, states, fuel);
            keeps_marks(states, after) && (outcome matches Ok(typ) ==> type_done(batch, typ, after))
        }),
    decreases fuel, 0nat, 0nat,
{
    let (resolved, typ) = names.resolve_or_poison(
        field.typ,
        ResolveCtx::root_spec(),
        MAX_DEPTH as nat,
    );
    if let Ok(typ) = typ {
        if let TypeKind::Struct(dep) = typ.kind() {
            lemma_batch_position(batch, dep, 0);
            if let Some(held) = batch_position(batch, dep, 0) {
                lemma_lower_struct(resolved, batch, held, states, (fuel - 1) as nat);
                let (lowered, after, outcome) = resolved.lower_struct(
                    batch,
                    held,
                    states,
                    (fuel - 1) as nat,
                );
                match outcome {
                    Ok(_) => {
                        assert(names.field_annotation(batch, field, states, fuel) == (
                            lowered,
                            after,
                            Outcome::<Type>::Ok(typ),
                        ));
                    },
                    Err(error) => {
                        let (poisoned, result) = lowered.poison(error);
                        Type::lemma_round_trip(TypeKind::Error);
                        assert(names.field_annotation(batch, field, states, fuel) == (
                            poisoned,
                            after,
                            result,
                        ));
                    },
                }
            }
        }
    }
}

proof fn lemma_struct_fields<'hir>(
    names: Names<'hir>,
    batch: Seq<StructDecl<'hir>>,
    declared: Seq<ast::Field<'hir>>,
    at: nat,
    states: Seq<Visit>,
    given: Seq<SymbolId>,
    fields: Seq<StructField>,
    fuel: nat,
)
    requires
        states.len() == batch.len() <= usize::MAX,
        fuel > 0,
        held_done(batch, fields, states),
    ensures
        ({
            let (_, after, outcome) = names.struct_fields(
                batch,
                declared,
                at,
                states,
                given,
                fields,
                fuel,
            );
            keeps_marks(states, after) && (outcome matches Ok(fields) ==> held_done(
                batch,
                fields,
                after,
            ))
        }),
    decreases fuel, 0nat, declared.len() - at + 1,
{
    if at < declared.len() {
        let field = declared[at as int];
        let (inserted, symbol) = names.insert(field.name@);
        if given.contains(symbol) {
            let duplicate = HirError::new(
                HirErrorKind::DuplicateField { name: field.name@ },
                field.span,
            );
            if let (noted, Ok(_)) = inserted.soft(duplicate) {
                lemma_struct_fields(noted, batch, declared, at + 1, states, given, fields, fuel);
            }
        } else {
            lemma_field_annotation(inserted, batch, field, states, fuel);
            if let (resolved, after, Ok(typ)) = inserted.field_annotation(
                batch,
                field,
                states,
                fuel,
            ) {
                let more = fields.push(StructField { name: symbol, typ, offset: 0 });
                assert forall|i: int| 0 <= i < more.len() implies type_done(
                    batch,
                    (#[trigger] more[i]).typ,
                    after,
                ) by {
                    if i < fields.len() {
                        assert(type_done(batch, fields[i].typ, states));
                    }
                }
                lemma_struct_fields(
                    resolved,
                    batch,
                    declared,
                    at + 1,
                    after,
                    given.push(symbol),
                    more,
                    fuel,
                );
            }
        }
    }
}

/// When the fields of a struct are known, all structs of its module that it holds by value are
/// done, and it is not: so none of them holds itself, neither directly nor through others.
pub proof fn lemma_held_first<'hir>(
    names: Names<'hir>,
    batch: Seq<StructDecl<'hir>>,
    index: usize,
    states: Seq<Visit>,
    fuel: nat,
)
    requires
        states.len() == batch.len() <= usize::MAX,
        index < batch.len(),
        fuel > 0,
    ensures
        ({
            let (_, after, outcome) = names.struct_fields(
                batch,
                batch[index as int].1.fields@,
                0,
                mark(states, index, Visit::Visiting),
                seq![],
                seq![],
                fuel,
            );
            outcome matches Ok(fields) ==> held_done(batch, fields, after) && after[index as int]
                == Visit::Visiting
        }),
{
    let entered = mark(states, index, Visit::Visiting);
    lemma_struct_fields(
        names,
        batch,
        batch[index as int].1.fields@,
        0,
        entered,
        seq![],
        seq![],
        fuel,
    );
    assert(entered[index as int] == Visit::Visiting);
}

/// How many of the first `count` structs are being visited.
pub open spec fn visiting(states: Seq<Visit>, count: nat) -> nat
    decreases count,
{
    if count == 0 || count > states.len() {
        0
    } else {
        visiting(states, (count - 1) as nat) + if states[count - 1] == Visit::Visiting {
            1nat
        } else {
            0nat
        }
    }
}

proof fn lemma_visiting_mark(states: Seq<Visit>, index: usize, count: nat)
    requires
        index < states.len(),
        states[index as int] == Visit::Unvisited,
        count <= states.len(),
    ensures
        visiting(mark(states, index, Visit::Visiting), count) == visiting(states, count) + if index
            < count {
            1nat
        } else {
            0nat
        },
    decreases count,
{
    if count > 0 {
        lemma_visiting_mark(states, index, (count - 1) as nat);
    }
}

proof fn lemma_visiting_kept(before: Seq<Visit>, after: Seq<Visit>, count: nat)
    requires
        keeps_marks(before, after),
        count <= before.len(),
    ensures
        visiting(before, count) <= visiting(after, count),
    decreases count,
{
    if count > 0 {
        lemma_visiting_kept(before, after, (count - 1) as nat);
        assert(before[count - 1] == Visit::Visiting ==> after[count - 1] == before[count - 1]);
    }
}

proof fn lemma_some_unvisited(states: Seq<Visit>, index: usize, count: nat)
    requires
        index < count <= states.len(),
        states[index as int] == Visit::Unvisited,
    ensures
        visiting(states, count) < count,
    decreases count,
{
    lemma_visiting_bound(states, (count - 1) as nat);
    if index < count - 1 {
        lemma_some_unvisited(states, index, (count - 1) as nat);
    }
}

proof fn lemma_visiting_bound(states: Seq<Visit>, count: nat)
    ensures
        visiting(states, count) <= count,
    decreases count,
{
    if count > 0 {
        lemma_visiting_bound(states, (count - 1) as nat);
    }
}

/// A struct is only said to be circular if it is: the depth of the search is limited by the
/// number of structs, and a limit any higher makes no difference.
pub proof fn lemma_depth_enough<'hir>(
    names: Names<'hir>,
    batch: Seq<StructDecl<'hir>>,
    index: usize,
    states: Seq<Visit>,
    fuel: nat,
    more: nat,
)
    requires
        states.len() == batch.len() <= usize::MAX,
        index < batch.len(),
        visiting(states, states.len()) + fuel >= batch.len(),
        fuel <= more,
    ensures
        names.lower_struct(batch, index, states, fuel) == names.lower_struct(
            batch,
            index,
            states,
            more,
        ),
    decreases fuel, 1nat, 0nat,
{
    if states[index as int] == Visit::Unvisited {
        lemma_some_unvisited(states, index, states.len());
        lemma_visiting_mark(states, index, states.len());
        let declaration = batch[index as int].1;
        let entered = mark(states, index, Visit::Visiting);
        lemma_depth_enough_fields(
            names,
            batch,
            declaration.fields@,
            0,
            entered,
            seq![],
            seq![],
            fuel,
            more,
        );
    }
}

proof fn lemma_depth_enough_fields<'hir>(
    names: Names<'hir>,
    batch: Seq<StructDecl<'hir>>,
    declared: Seq<ast::Field<'hir>>,
    at: nat,
    states: Seq<Visit>,
    given: Seq<SymbolId>,
    fields: Seq<StructField>,
    fuel: nat,
    more: nat,
)
    requires
        states.len() == batch.len() <= usize::MAX,
        0 < fuel <= more,
        visiting(states, states.len()) + fuel > batch.len(),
        held_done(batch, fields, states),
    ensures
        names.struct_fields(batch, declared, at, states, given, fields, fuel)
            == names.struct_fields(batch, declared, at, states, given, fields, more),
    decreases fuel, 0nat, declared.len() - at + 1,
{
    if at < declared.len() {
        let field = declared[at as int];
        let (inserted, symbol) = names.insert(field.name@);
        if given.contains(symbol) {
            let duplicate = HirError::new(
                HirErrorKind::DuplicateField { name: field.name@ },
                field.span,
            );
            if let (noted, Ok(_)) = inserted.soft(duplicate) {
                lemma_depth_enough_fields(
                    noted,
                    batch,
                    declared,
                    at + 1,
                    states,
                    given,
                    fields,
                    fuel,
                    more,
                );
            }
        } else {
            let (resolved, typ) = inserted.resolve_or_poison(
                field.typ,
                ResolveCtx::root_spec(),
                MAX_DEPTH as nat,
            );
            if let Ok(typ) = typ {
                if let TypeKind::Struct(dep) = typ.kind() {
                    lemma_batch_position(batch, dep, 0);
                    if let Some(held) = batch_position(batch, dep, 0) {
                        lemma_depth_enough(
                            resolved,
                            batch,
                            held,
                            states,
                            (fuel - 1) as nat,
                            (more - 1) as nat,
                        );
                    }
                }
            }
            assert(inserted.field_annotation(batch, field, states, fuel)
                == inserted.field_annotation(batch, field, states, more));
            lemma_field_annotation(inserted, batch, field, states, fuel);
            if let (annotated, after, Ok(typ)) = inserted.field_annotation(
                batch,
                field,
                states,
                fuel,
            ) {
                lemma_visiting_kept(states, after, states.len());
                let longer = fields.push(StructField { name: symbol, typ, offset: 0 });
                assert forall|i: int| 0 <= i < longer.len() implies type_done(
                    batch,
                    (#[trigger] longer[i]).typ,
                    after,
                ) by {
                    if i < fields.len() {
                        assert(type_done(batch, fields[i].typ, states));
                    }
                }
                lemma_depth_enough_fields(
                    annotated,
                    batch,
                    declared,
                    at + 1,
                    after,
                    given.push(symbol),
                    longer,
                    fuel,
                    more,
                );
            }
        }
    }
}

/// The outcome of declaring structs as contracts see it.
pub open spec fn seen_batch<'hir>(
    result: Result<Vec<StructDecl<'hir>>, HirError<&'hir str>>,
) -> Outcome<Seq<StructDecl<'hir>>> {
    match result {
        Ok(batch) => Ok(batch@),
        Err(error) => Err(error@),
    }
}

impl<'hir> Scope<'hir> {
    pub fn is_nominal(&self, symbol: SymbolId) -> (nominal: bool)
        ensures
            nominal == self@.is_nominal(symbol),
    {
        self.struct_map.contains_key(&symbol.0) || self.enum_map.contains_key(&symbol.0)
    }

    /// Declares the structs of a module.
    pub fn declare_structs(&mut self, structs: &Vec<&'hir ast::Struct<'hir>>) -> (outcome: Result<
        Vec<StructDecl<'hir>>,
        HirError<&'hir str>,
    >)
        ensures
            (final(self)@, seen_batch(outcome)) == old(self)@.declare_structs(
                structs@,
                0,
                seq![],
            ),
    {
        let mut batch: Vec<StructDecl<'hir>> = Vec::new();
        let no_generics: Vec<SymbolId> = Vec::new();
        assert(no_generics@ =~= seq![]);
        let mut i: usize = 0;
        while i < structs.len()
            invariant
                i <= structs@.len(),
                no_generics@ == Seq::<SymbolId>::empty(),
                old(self)@.declare_structs(structs@, 0, seq![]) == self@.declare_structs(
                    structs@,
                    i as nat,
                    batch@,
                ),
            decreases structs@.len() - i,
        {
            let declaration = structs[i];
            let symbol = self.insert(declaration.name);
            if self.is_nominal(symbol) {
                let duplicate = HirError::new(
                    HirErrorKind::DuplicateStruct { name: declaration.name },
                    declaration.span,
                );
                if let Err(error) = self.soft(duplicate) {
                    return Err(error);
                }
            } else if declaration.generics.len() > 0 {
                self.generic_structs.insert(symbol.0, declaration);
            } else {
                let id = self.declare_struct(
                    symbol,
                    declaration.span,
                    declaration.repr,
                    &no_generics,
                );
                batch.push((id, declaration));
            }
            i += 1;
        }
        Ok(batch)
    }

    /// Lowers one struct of the batch, and those it holds by value.
    fn lower_struct(
        &mut self,
        batch: &Vec<StructDecl<'hir>>,
        index: usize,
        states: &mut Vec<Visit>,
        fuel: usize,
    ) -> (outcome: Result<(), HirError<&'hir str>>)
        ensures
            (final(self)@, final(states)@, seen(outcome)) == old(self)@.lower_struct(
                batch@,
                index,
                old(states)@,
                fuel as nat,
            ),
        decreases fuel, 1nat, 0nat,
    {
        if index >= batch.len() || index >= states.len() {
            return Ok(());
        }
        let (id, declaration) = batch[index];
        let circular = HirError::new(
            HirErrorKind::CircularStruct { name: declaration.name },
            declaration.span,
        );
        match states[index] {
            Visit::Visited => {
                return Ok(());
            },
            Visit::Visiting => {
                return Err(circular);
            },
            Visit::Unvisited => {},
        }
        if fuel == 0 {
            return Err(circular);
        }
        set_mark(states, index, Visit::Visiting);
        let fields = match self.struct_fields(batch, declaration.fields, states, fuel) {
            Err(error) => return Err(error),
            Ok(fields) => fields,
        };
        self.set_fields(id.0 as usize, &fields);
        set_mark(states, index, Visit::Visited);
        Ok(())
    }

    fn field_annotation(
        &mut self,
        batch: &Vec<StructDecl<'hir>>,
        field: &ast::Field<'hir>,
        states: &mut Vec<Visit>,
        fuel: usize,
    ) -> (outcome: Result<Type, HirError<&'hir str>>)
        ensures
            (final(self)@, final(states)@, seen(outcome)) == old(self)@.field_annotation(
                batch@,
                *field,
                old(states)@,
                fuel as nat,
            ),
        decreases fuel, 0nat, 0nat,
    {
        let ctx = ResolveCtx::root(self.arena);
        let typ = match self.resolve_or_poison(&field.typ, ctx, MAX_DEPTH) {
            Err(error) => return Err(error),
            Ok(typ) => typ,
        };
        let held = match typ.kind() {
            TypeKind::Struct(dep) => find_in_batch(batch, dep),
            _ => None,
        };
        match held {
            None => Ok(typ),
            Some(dep) => {
                if fuel == 0 {
                    return Ok(typ);
                }
                match self.lower_struct(batch, dep, states, fuel - 1) {
                    Ok(_) => Ok(typ),
                    Err(error) => self.poison(error),
                }
            },
        }
    }

    fn struct_fields(
        &mut self,
        batch: &Vec<StructDecl<'hir>>,
        declared: &'hir Vec<ast::Field<'hir>>,
        states: &mut Vec<Visit>,
        fuel: usize,
    ) -> (outcome: Result<Vec<StructField>, HirError<&'hir str>>)
        ensures
            (final(self)@, final(states)@, seen_list(outcome)) == old(self)@.struct_fields(
                batch@,
                declared@,
                0,
                old(states)@,
                seq![],
                seq![],
                fuel as nat,
            ),
        decreases fuel, 0nat, declared@.len() + 2,
    {
        let mut given: Vec<SymbolId> = Vec::new();
        let mut fields: Vec<StructField> = Vec::new();
        let mut i: usize = 0;
        while i < declared.len()
            invariant
                i <= declared@.len(),
                old(self)@.struct_fields(
                    batch@,
                    declared@,
                    0,
                    old(states)@,
                    seq![],
                    seq![],
                    fuel as nat,
                ) == self@.struct_fields(
                    batch@,
                    declared@,
                    i as nat,
                    states@,
                    given@,
                    fields@,
                    fuel as nat,
                ),
            decreases declared@.len() - i,
        {
            let field = &declared[i];
            let symbol = self.insert(field.name);
            if contains_symbol(&given, symbol) {
                let duplicate = HirError::new(
                    HirErrorKind::DuplicateField { name: field.name },
                    field.span,
                );
                if let Err(error) = self.soft(duplicate) {
                    return Err(error);
                }
            } else {
                match self.field_annotation(batch, field, states, fuel) {
                    Err(error) => {
                        return Err(error);
                    },
                    Ok(typ) => {
                        given.push(symbol);
                        fields.push(StructField { name: symbol, typ, offset: 0 });
                    },
                }
            }
            i += 1;
        }
        Ok(fields)
    }

    /// Lowers all structs of a batch, each after those it holds by value.
    pub fn lower_structs(&mut self, batch: &Vec<StructDecl<'hir>>) -> (outcome: Result<
        (),
        HirError<&'hir str>,
    >)
        ensures
            (final(self)@, seen(outcome)) == old(self)@.lower_structs(
                batch@,
                0,
                Names::unvisited(batch@.len()),
            ),
    {
        let mut states: Vec<Visit> = Vec::new();
        let mut i: usize = 0;
        while i < batch.len()
            invariant
                i <= batch@.len(),
                states@ =~= Names::unvisited(i as nat),
            decreases batch@.len() - i,
        {
            states.push(Visit::Unvisited);
            i += 1;
        }
        let mut i: usize = 0;
        while i < batch.len()
            invariant
                i <= batch@.len(),
                old(self)@.lower_structs(batch@, 0, Names::unvisited(batch@.len()))
                    == self@.lower_structs(batch@, i as nat, states@),
            decreases batch@.len() - i,
        {
            if let Err(error) = self.lower_struct(batch, i, &mut states, batch.len()) {
                return Err(error);
            }
            i += 1;
        }
        Ok(())
    }
}

} // verus!
