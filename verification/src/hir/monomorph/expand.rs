//! Making the copies that a module uses.

use crate::arena::Arena;
use crate::ast::{no_span, GenericBound, Impl, Item, ItemKind, Span, Statement, Type};
use crate::hir::error::{HirError, HirErrorKind};
use crate::hir::mono::MAX_INSTANCES;
use crate::hir::monomorph::collect::{use_of, Collector, Instantiation, Sources, Use, Uses};
use crate::hir::monomorph::copies::{
    copy_enum, copy_function, copy_impl, copy_struct, rewrite_form, rewrite_stmt, Substitution,
};
use crate::hir::monomorph::form::{
    enum_form, function_form, impl_form, item_form, struct_form, top_form, top_forms, ImplForm,
    ItemForm, TopForm,
};
use crate::hir::monomorph::infer::{applied, infer_top_form, infer_top_forms, Inferrer};
use crate::hir::monomorph::shape::{copy_name, mangle_types, type_shapes, Shape};
use crate::hir::monomorph::subst::{env_view, Bindings, Env};
use crate::hir::monomorph::templates::{concrete, extract_templates, TemplateSet, Templates};
use crate::hir::scope::Outcome;
use crate::text::text_eq;
use vstd::prelude::*;

verus! {

/// The name of the type an `impl` block is for.
pub open spec fn receiver_name(item: ImplForm) -> Option<Seq<char>> {
    match item.receiver.shape {
        Shape::Generic(name, args) => Some(name),
        Shape::Named(name) => Some(name),
        _ => None,
    }
}

/// An item that no comment documents.
pub open spec fn bare_item<'s>(kind: ItemForm<'s>) -> TopForm<'s> {
    TopForm::Item { docs: seq![], kind }
}

/// The uses found so far and the copies made for them.
pub ghost struct Progress<'s> {
    pub uses: Uses,
    pub made: Seq<TopForm<'s>>,
}

impl<'s> Progress<'s> {
    /// After the `impl` templates of a type from position `at` on are copied.
    pub open spec fn impls_for(
        self,
        impls: Seq<&'s Impl<'s>>,
        at: nat,
        base: Seq<char>,
        name: Seq<char>,
        env: Bindings,
        set: TemplateSet<'s>,
    ) -> Progress<'s>
        decreases impls.len() - at,
    {
        if at >= impls.len() {
            self
        } else {
            let item = impl_form(*impls[at as int]);
            let next = if receiver_name(item) == Some(base) {
                let copy = copy_impl(item, name, env, set);
                Progress {
                    uses: self.uses.in_bodies(copy.methods, 0, set),
                    made: self.made.push(bare_item(ItemForm::Impl(copy))),
                }
            } else {
                self
            };
            next.impls_for(impls, at + 1, base, name, env, set)
        }
    }

    /// After a copy is made for a use.
    pub open spec fn expand(self, used: Use, set: TemplateSet<'s>) -> Progress<'s> {
        let (base, args) = used;
        let name = copy_name(base, args);
        match set.structure(base) {
            Some(item) => {
                let env = applied(item.generics@, args);
                let copy = copy_struct(struct_form(*item), name, env);
                Progress {
                    made: self.made.push(bare_item(ItemForm::Struct(copy))),
                    ..self
                }.impls_for(set.impls, 0, base, name, env, set)
            },
            None => match set.enumeration(base) {
                Some(item) => {
                    let env = applied(item.generics@, args);
                    let copy = copy_enum(enum_form(*item), name, env);
                    Progress {
                        made: self.made.push(bare_item(ItemForm::Enum(copy))),
                        ..self
                    }.impls_for(set.impls, 0, base, name, env, set)
                },
                None => match set.function(base) {
                    Some(item) => {
                        let env = applied(item.generics@, args);
                        let copy = copy_function(function_form(*item), name, env, set);
                        Progress {
                            uses: self.uses.in_block(copy.body, set),
                            made: self.made.push(bare_item(ItemForm::Fn(copy))),
                        }
                    },
                    None => self,
                },
            },
        }
    }

    /// All copies, made for the latest use first, at most `fuel` of them.
    pub open spec fn drain(self, fuel: nat, set: TemplateSet<'s>) -> Outcome<Seq<TopForm<'s>>>
        decreases fuel,
    {
        if self.uses.worklist.len() == 0 {
            Ok(self.made)
        } else {
            let used = self.uses.worklist.last();
            if fuel == 0 {
                Err(HirError::new(HirErrorKind::InstantiationTooDeep { name: used.0 }, no_span()))
            } else {
                Progress {
                    uses: Uses { worklist: self.uses.worklist.drop_last(), ..self.uses },
                    ..self
                }.expand(used, set).drain((fuel - 1) as nat, set)
            }
        }
    }
}

pub open spec fn rewrite_forms<'s>(statements: Seq<TopForm<'s>>, set: TemplateSet<'s>) -> Seq<
    TopForm<'s>,
> {
    Seq::new(statements.len(), |i: int| rewrite_form(statements[i], set))
}

/// A module without templates, given the templates: what it uses is copied behind it.
pub open spec fn monomorphised<'s>(statements: Seq<TopForm<'s>>, set: TemplateSet<'s>) -> Outcome<
    Seq<TopForm<'s>>,
> {
    if set.is_bare() {
        Ok(statements)
    } else {
        let inferred = infer_top_forms(statements, set);
        let found = Progress { uses: Uses::none().in_tops(inferred, 0, set), made: seq![] };
        match found.drain(MAX_INSTANCES as nat, set) {
            Ok(made) => Ok(rewrite_forms(inferred, set) + made),
            Err(error) => Err(error),
        }
    }
}

/// A module is left as it is if it has no generic items.
pub proof fn lemma_no_templates<'s>(statements: Seq<Statement<'s>>)
    requires
        forall|i: int|
            0 <= i < statements.len() ==> !TemplateSet::is_template(#[trigger] statements[i]),
    ensures
        monomorphised(
            top_forms(statements.filter(concrete())),
            TemplateSet::none().with_all(statements, statements.len()),
        ) == Outcome::<Seq<TopForm<'s>>>::Ok(top_forms(statements)),
{
    lemma_all_kept(statements, statements.len());
    assert(statements.take(statements.len() as int) =~= statements);
}

proof fn lemma_all_kept<'s>(statements: Seq<Statement<'s>>, count: nat)
    requires
        count <= statements.len(),
        forall|i: int|
            0 <= i < statements.len() ==> !TemplateSet::is_template(#[trigger] statements[i]),
    ensures
        TemplateSet::none().with_all(statements, count) == TemplateSet::<'s>::none(),
        statements.take(count as int).filter(concrete()) == statements.take(count as int),
    decreases count,
{
    reveal(Seq::filter);
    if count == 0 {
        assert(statements.take(0).filter(concrete()) =~= statements.take(0));
    } else {
        lemma_all_kept(statements, (count - 1) as nat);
        assert(statements.take(count as int).drop_last() =~= statements.take(count - 1));
        assert(statements.take(count as int) =~= statements.take(count - 1).push(
            statements[count - 1],
        ));
    }
}

/// Whether an item has no type parameters.
pub open spec fn is_concrete(statement: TopForm) -> bool {
    match statement {
        TopForm::Item { docs, kind } => match kind {
            ItemForm::Fn(item) => item.generics.len() == 0,
            ItemForm::Struct(item) => item.generics.len() == 0,
            ItemForm::Enum(item) => item.generics.len() == 0,
            ItemForm::Impl(item) => item.generics.len() == 0,
            _ => true,
        },
        _ => true,
    }
}

pub open spec fn all_concrete(statements: Seq<TopForm>) -> bool {
    forall|i: int| 0 <= i < statements.len() ==> is_concrete(#[trigger] statements[i])
}

/// Nothing in a module has type parameters once its templates are set aside and copied, apart
/// from interfaces.
pub proof fn lemma_monomorphised_is_concrete<'s>(
    statements: Seq<TopForm<'s>>,
    set: TemplateSet<'s>,
)
    requires
        all_concrete(statements),
        monomorphised(statements, set) is Ok,
    ensures
        all_concrete(monomorphised(statements, set)->Ok_0),
{
    if !set.is_bare() {
        let inferred = infer_top_forms(statements, set);
        let found = Progress { uses: Uses::none().in_tops(inferred, 0, set), made: seq![] };
        lemma_drain_concrete(found, MAX_INSTANCES as nat, set);
        let made = found.drain(MAX_INSTANCES as nat, set)->Ok_0;
        let all = rewrite_forms(inferred, set) + made;
        assert forall|i: int| 0 <= i < all.len() implies is_concrete(#[trigger] all[i]) by {
            if i < inferred.len() {
                assert(is_concrete(statements[i]));
                assert(all[i] == rewrite_form(infer_top_form(statements[i], set), set));
            } else {
                assert(all[i] == made[i - inferred.len()]);
            }
        }
    }
}

proof fn lemma_impls_concrete<'s>(
    progress: Progress<'s>,
    impls: Seq<&'s Impl<'s>>,
    at: nat,
    base: Seq<char>,
    name: Seq<char>,
    env: Bindings,
    set: TemplateSet<'s>,
)
    requires
        all_concrete(progress.made),
    ensures
        all_concrete(progress.impls_for(impls, at, base, name, env, set).made),
    decreases impls.len() - at,
{
    if at < impls.len() {
        let item = impl_form(*impls[at as int]);
        let next = if receiver_name(item) == Some(base) {
            let copy = copy_impl(item, name, env, set);
            Progress {
                uses: progress.uses.in_bodies(copy.methods, 0, set),
                made: progress.made.push(bare_item(ItemForm::Impl(copy))),
            }
        } else {
            progress
        };
        lemma_impls_concrete(next, impls, at + 1, base, name, env, set);
    }
}

proof fn lemma_expand_concrete<'s>(progress: Progress<'s>, used: Use, set: TemplateSet<'s>)
    requires
        all_concrete(progress.made),
    ensures
        all_concrete(progress.expand(used, set).made),
{
    let (base, args) = used;
    let name = copy_name(base, args);
    match set.structure(base) {
        Some(item) => {
            let env = applied(item.generics@, args);
            let copy = copy_struct(struct_form(*item), name, env);
            let next = Progress {
                made: progress.made.push(bare_item(ItemForm::Struct(copy))),
                ..progress
            };
            lemma_impls_concrete(next, set.impls, 0, base, name, env, set);
        },
        None => match set.enumeration(base) {
            Some(item) => {
                let env = applied(item.generics@, args);
                let copy = copy_enum(enum_form(*item), name, env);
                let next = Progress {
                    made: progress.made.push(bare_item(ItemForm::Enum(copy))),
                    ..progress
                };
                lemma_impls_concrete(next, set.impls, 0, base, name, env, set);
            },
            None => {},
        },
    }
}

proof fn lemma_drain_concrete<'s>(progress: Progress<'s>, fuel: nat, set: TemplateSet<'s>)
    requires
        all_concrete(progress.made),
        progress.drain(fuel, set) is Ok,
    ensures
        all_concrete(progress.drain(fuel, set)->Ok_0),
    decreases fuel,
{
    if progress.uses.worklist.len() > 0 && fuel > 0 {
        let used = progress.uses.worklist.last();
        let popped = Progress {
            uses: Uses { worklist: progress.uses.worklist.drop_last(), ..progress.uses },
            ..progress
        };
        lemma_expand_concrete(popped, used, set);
        lemma_drain_concrete(popped.expand(used, set), (fuel - 1) as nat, set);
    }
}

/// The name of the type an `impl` block is for.
fn impl_receiver_name<'s>(item: &Impl<'s>) -> (name: Option<&'s str>)
    ensures
        receiver_name(impl_form(*item)) == (match name {
            Some(name) => Some(name@),
            None => None,
        }),
{
    match item.receiver.value {
        Type::Generic(name, _) => Some(name),
        Type::Named(name) => Some(name),
        _ => None,
    }
}

/// What type parameters stand for, given their arguments.
fn build_env<'s>(generics: &Vec<GenericBound<'s>>, args: &Vec<Type<'s>>) -> (env: Env<'s>)
    ensures
        env_view(env@) == applied(generics@, type_shapes(args@)),
{
    let mut env: Env<'s> = Vec::new();
    let mut i: usize = 0;
    while i < generics.len() && i < args.len()
        invariant
            i <= generics@.len(),
            i <= args@.len(),
            env@.len() == i,
            forall|j: int|
                0 <= j < i ==> (#[trigger] env@[j]).0 == generics@[j].name && env@[j].1 == args@[j],
        decreases args@.len() - i,
    {
        env.push((generics[i].name, args[i]));
        i += 1;
    }
    assert(env_view(env@) =~= applied(generics@, type_shapes(args@)));
    env
}

/// An item that no comment documents.
fn plain_item<'s>(kind: ItemKind<'s>, arena: &'s Arena) -> (statement: Statement<'s>)
    ensures
        top_form(statement) == bare_item(item_form(kind)),
{
    let none: Vec<&'s str> = Vec::new();
    assert(none@ =~= seq![]);
    Statement::Item(Item { docs: arena.place(none), kind })
}

/// The uses found so far and the copies made for them.
struct Expander<'a, 's> {
    sources: Sources<'a, 's>,
    collector: Collector<'s>,
    made: Vec<Statement<'s>>,
}

impl<'a, 's> Expander<'a, 's> {
    spec fn progress(self) -> Progress<'s> {
        Progress { uses: self.collector@, made: top_forms(self.made@) }
    }

    fn push(&mut self, kind: ItemKind<'s>)
        ensures
            final(self).sources == old(self).sources,
            final(self).progress() == (Progress {
                made: old(self).progress().made.push(bare_item(item_form(kind))),
                ..old(self).progress()
            }),
    {
        let statement = plain_item(kind, self.sources.arena);
        self.made.push(statement);
        assert(top_forms(self.made@) =~= top_forms(old(self).made@).push(top_form(statement)));
    }

    /// Copies the `impl` templates of a type.
    fn copy_impls(&mut self, base: &str, name: &'s str, env: &Env<'s>)
        ensures
            final(self).sources == old(self).sources,
            final(self).progress() == old(self).progress().impls_for(
                old(self).sources.templates@.impls,
                0,
                base@,
                name@,
                env_view(env@),
                old(self).sources.templates@,
            ),
    {
        let sources = self.sources;
        let templates = sources.templates;
        let ghost set = templates@;
        let ghost view = env_view(env@);
        let substitution = Substitution { env, templates, arena: sources.arena };
        let mut i: usize = 0;
        while i < templates.impls.len()
            invariant
                i <= templates.impls@.len(),
                sources == old(self).sources,
                self.sources == sources,
                templates == sources.templates,
                set == templates@,
                set == old(self).sources.templates@,
                view == env_view(env@),
                substitution == (Substitution { env, templates, arena: sources.arena }),
                self.progress().impls_for(set.impls, i as nat, base@, name@, view, set) == old(
                    self,
                ).progress().impls_for(set.impls, 0, base@, name@, view, set),
            decreases templates.impls@.len() - i,
        {
            let item = templates.impls[i];
            let matching = match impl_receiver_name(item) {
                Some(receiver) => text_eq(receiver, base),
                None => false,
            };
            if matching {
                let copy: &'s Impl<'s> = sources.arena.place(substitution.subst_impl(item, name));
                self.collector.collect_impl(copy, sources);
                self.push(ItemKind::Impl(copy));
            }
            i += 1;
        }
    }

    /// Makes a copy for a use.
    fn expand(&mut self, used: Instantiation<'s>)
        ensures
            final(self).sources == old(self).sources,
            final(self).progress() == old(self).progress().expand(
                use_of(used),
                old(self).sources.templates@,
            ),
    {
        let sources = self.sources;
        let templates = sources.templates;
        let arena = sources.arena;
        if let Some(item) = templates.structure(used.name) {
            let env = build_env(item.generics, used.args);
            let name = arena.place_str(mangle_types(used.name, used.args).as_str());
            let substitution = Substitution { env: &env, templates, arena };
            let copy = substitution.subst_struct(item, name);
            self.push(ItemKind::Struct(arena.place(copy)));
            self.copy_impls(used.name, name, &env);
        } else if let Some(item) = templates.enumeration(used.name) {
            let env = build_env(item.generics, used.args);
            let name = arena.place_str(mangle_types(used.name, used.args).as_str());
            let substitution = Substitution { env: &env, templates, arena };
            let copy = substitution.subst_enum(item, name);
            self.push(ItemKind::Enum(arena.place(copy)));
            self.copy_impls(used.name, name, &env);
        } else if let Some(item) = templates.function(used.name) {
            let env = build_env(item.generics, used.args);
            let name = arena.place_str(mangle_types(used.name, used.args).as_str());
            let substitution = Substitution { env: &env, templates, arena };
            let copy = substitution.subst_fn(item, name);
            self.collector.collect_block(&copy.body, sources);
            self.push(ItemKind::Fn(arena.place(copy)));
        }
    }

    /// Makes copies for all uses.
    fn drain(&mut self) -> (outcome: Result<(), HirError<&'s str>>)
        ensures
            final(self).sources == old(self).sources,
            old(self).progress().drain(MAX_INSTANCES as nat, old(self).sources.templates@) == (
            match outcome {
                Ok(()) => Ok(final(self).progress().made),
                Err(error) => Err(error@),
            }),
    {
        let ghost set = self.sources.templates@;
        let mut fuel: usize = MAX_INSTANCES;
        while self.collector.worklist.len() > 0
            invariant
                self.sources == old(self).sources,
                set == old(self).sources.templates@,
                self.progress().drain(fuel as nat, set) == old(self).progress().drain(
                    MAX_INSTANCES as nat,
                    set,
                ),
            decreases fuel,
        {
            let last: usize = self.collector.worklist.len() - 1;
            let used = self.collector.worklist[last];
            assert(self.progress().uses.worklist.last() == use_of(used));
            if fuel == 0 {
                return Err(
                    HirError::new(
                        HirErrorKind::InstantiationTooDeep { name: used.name },
                        Span::default(),
                    ),
                );
            }
            let ghost before = self.progress();
            self.collector.worklist.pop();
            assert(self.progress().uses.worklist =~= before.uses.worklist.drop_last());
            self.expand(used);
            fuel -= 1;
        }
        assert(self.progress().uses.worklist.len() == 0);
        Ok(())
    }
}

/// Makes a module refer to copies of the given templates, and adds the copies behind it.
pub fn monomorphise_with_templates<'s>(
    statements: &mut Vec<Statement<'s>>,
    templates: &Templates<'s>,
    arena: &'s Arena,
) -> (outcome: Result<(), HirError<&'s str>>)
    ensures
        monomorphised(top_forms(old(statements)@), templates@) == (match outcome {
            Ok(()) => Ok(top_forms(final(statements)@)),
            Err(error) => Err(error@),
        }),
        outcome is Err ==> final(statements)@ == old(statements)@,
{
    if templates.is_bare() {
        return Ok(());
    }
    let ghost set = templates@;
    let ghost given = top_forms(statements@);
    let ghost inferred_forms = infer_top_forms(given, set);
    let sources = Sources { templates, arena };
    let inferrer = Inferrer { templates, arena };
    let mut inferred: Vec<Statement<'s>> = Vec::new();
    let mut i: usize = 0;
    while i < statements.len()
        invariant
            i <= statements@.len(),
            inferred@.len() == i,
            statements@ == old(statements)@,
            set == templates@,
            inferrer == (Inferrer { templates, arena }),
            given == top_forms(statements@),
            inferred_forms == infer_top_forms(given, set),
            forall|j: int| 0 <= j < i ==> top_form(#[trigger] inferred@[j]) == inferred_forms[j],
        decreases statements@.len() - i,
    {
        inferred.push(inferrer.infer_stmt(&statements[i]));
        i += 1;
    }
    assert(top_forms(inferred@) =~= inferred_forms);
    let mut collector = Collector::new();
    let ghost start = collector@;
    let mut i: usize = 0;
    while i < inferred.len()
        invariant
            i <= inferred@.len(),
            set == templates@,
            sources == (Sources { templates, arena }),
            start == Uses::none(),
            top_forms(inferred@) == inferred_forms,
            collector@.in_tops(inferred_forms, i as nat, set) == start.in_tops(
                inferred_forms,
                0,
                set,
            ),
        decreases inferred@.len() - i,
    {
        assert(inferred_forms[i as int] == top_form(inferred@[i as int]));
        collector.collect_stmt(&inferred[i], sources);
        i += 1;
    }
    let mut expander = Expander { sources, collector, made: Vec::new() };
    assert(expander.progress().made =~= seq![]);
    match expander.drain() {
        Ok(()) => {},
        Err(error) => return Err(error),
    }
    let mut out: Vec<Statement<'s>> = Vec::new();
    let mut i: usize = 0;
    while i < inferred.len()
        invariant
            i <= inferred@.len(),
            out@.len() == i,
            set == templates@,
            top_forms(inferred@) == inferred_forms,
            forall|j: int|
                0 <= j < i ==> top_form(#[trigger] out@[j]) == rewrite_form(
                    inferred_forms[j],
                    set,
                ),
        decreases inferred@.len() - i,
    {
        assert(inferred_forms[i as int] == top_form(inferred@[i as int]));
        out.push(rewrite_stmt(&inferred[i], templates, arena));
        i += 1;
    }
    assert(top_forms(out@) =~= rewrite_forms(inferred_forms, set));
    let ghost rewritten = out@;
    let made = expander.made;
    let mut i: usize = 0;
    while i < made.len()
        invariant
            i <= made@.len(),
            out@ == rewritten + made@.take(i as int),
        decreases made@.len() - i,
    {
        out.push(made[i]);
        assert(made@.take(i + 1) =~= made@.take(i as int).push(made@[i as int]));
        i += 1;
    }
    assert(made@.take(i as int) =~= made@);
    assert(top_forms(out@) =~= top_forms(rewritten) + top_forms(made@));
    *statements = out;
    Ok(())
}

/// Replaces the generic items of a module by copies for the ways they are used.
pub fn monomorphise<'s>(statements: &mut Vec<Statement<'s>>, arena: &'s Arena) -> (outcome: Result<
    (),
    HirError<&'s str>,
>)
    ensures
        monomorphised(
            top_forms(old(statements)@.filter(concrete())),
            TemplateSet::none().with_all(old(statements)@, old(statements)@.len()),
        ) == (match outcome {
            Ok(()) => Ok(top_forms(final(statements)@)),
            Err(error) => Err(error@),
        }),
{
    let mut templates = Templates::new();
    extract_templates(statements, &mut templates);
    monomorphise_with_templates(statements, &templates, arena)
}

} // verus!
