//! Chains of dereferences.

use vstd::prelude::*;

use crate::collections::{has_key, lookup};
use crate::context::{
    law_scope_order, law_sorted_scopes_unique, lemma_two_scopes, sorted_scopes, two_scopes,
    ContextView, ImplLookupContext, ImplOrModuleById,
};
use crate::db::SemanticGroup;
use crate::definition::{items_of, lemma_definition_grown, priv_impl_definition_data};
use crate::diagnostics::{skip_diagnostic, DiagnosticAdded, Maybe};
use crate::facts::CoreInfo;
use crate::ids::{
    ConcreteImplId, ConcreteTraitId, FunctionId, GenericParamId, ImplDefId, ImplId, ImplTypeDefId,
    TraitFunctionId, TraitId, TypeId,
};
use crate::item_types::{impl_type_def_resolved_type, lemma_type_data_grown};
use crate::model::{
    ConcreteTraitLongId, ConcreteTraitView, FunctionLongId, GenericArgumentId, GenericFunctionId,
    ImplGenericFunctionId, ImplLongId, Mutability,
};
use crate::queries::made_of;

verus! {

/// Represents a single step in a deref chain.
#[derive(Clone, Copy, PartialEq, Eq, Structural, Debug)]
pub struct DerefInfo {
    /// The concrete `Deref::deref` or `MutDeref::mderef_mut` function.
    pub function_id: FunctionId,
    /// The mutability of the self argument of the deref function.
    pub self_mutability: Mutability,
    /// The target type of the deref function.
    pub target_ty: TypeId,
}

/// Represents a chain of dereferences.
pub struct DerefChain {
    pub derefs: Vec<DerefInfo>,
}

// --- Traits of one type ---

/// A trait with a type as its only argument.
pub open spec fn type_trait(trait_id: TraitId, ty: TypeId) -> ConcreteTraitView {
    ConcreteTraitLongId { trait_id, generic_args: seq![GenericArgumentId::Type(ty)] }
}

/// Whether an id is that of a trait.
pub open spec fn is_trait_id(
    concrete_traits: Seq<ConcreteTraitView>,
    long: ConcreteTraitView,
    id: ConcreteTraitId,
) -> bool {
    id.0 < concrete_traits.len() && concrete_traits[id.0 as int] == long
}

/// The id of a trait, once it is interned.
pub open spec fn trait_id_of(
    concrete_traits: Seq<ConcreteTraitView>,
    long: ConcreteTraitView,
) -> ConcreteTraitId {
    choose|id: ConcreteTraitId| is_trait_id(concrete_traits, long, id)
}

impl SemanticGroup {
    /// Whether a trait of one type is interned.
    pub open spec fn has_type_trait(self, trait_id: TraitId, ty: TypeId) -> bool {
        is_trait_id(
            self.interned@.concrete_traits,
            type_trait(trait_id, ty),
            self.type_trait_id(trait_id, ty),
        )
    }

    /// The id of a trait of one type, once it is interned.
    pub open spec fn type_trait_id(self, trait_id: TraitId, ty: TypeId) -> ConcreteTraitId {
        trait_id_of(self.interned@.concrete_traits, type_trait(trait_id, ty))
    }

    /// The impl that inference finds for a trait of one type. Nothing is recorded of a trait that is
    /// not interned, so none is found for it.
    pub open spec fn type_trait_impl(
        self,
        context: ContextView,
        trait_id: TraitId,
        ty: TypeId,
    ) -> Option<ImplId> {
        if self.has_type_trait(trait_id, ty) {
            match self.spec_impl_at_context(context, self.type_trait_id(trait_id, ty)) {
                Ok(imp) => Some(imp),
                Err(_) => None,
            }
        } else {
            None
        }
    }

    /// Interns a trait of one type.
    pub fn intern_type_trait(&mut self, trait_id: TraitId, ty: TypeId) -> (id: ConcreteTraitId)
        requires
            old(self).wf(),
            old(self).has_type(ty),
        ensures
            final(self).wf(),
            final(self).grown_from(*old(self)),
            final(self).has_type_trait(trait_id, ty),
            id == final(self).type_trait_id(trait_id, ty),
            final(self).has_trait(id),
            final(self).interned@.types == old(self).interned@.types,
    {
        let mut generic_args: Vec<GenericArgumentId> = Vec::new();
        generic_args.push(GenericArgumentId::Type(ty));
        assert(generic_args@ =~= type_trait(trait_id, ty).generic_args);
        let id = self.intern_concrete_trait(ConcreteTraitLongId { trait_id, generic_args });
        proof {
            lemma_trait_id(*self, type_trait(trait_id, ty), id);
        }
        id
    }
}

proof fn lemma_trait_id(db: SemanticGroup, long: ConcreteTraitView, id: ConcreteTraitId)
    requires
        db.wf(),
        is_trait_id(db.interned@.concrete_traits, long, id),
    ensures
        trait_id_of(db.interned@.concrete_traits, long) == id,
{
    let traits = db.interned@.concrete_traits;
    let other = trait_id_of(traits, long);
    assert(is_trait_id(traits, long, other));
    assert(traits[id.0 as int] == traits[other.0 as int]);
}

/// A trait of one type keeps its id as more values are interned.
pub proof fn lemma_type_trait_grown(
    before: SemanticGroup,
    after: SemanticGroup,
    trait_id: TraitId,
    ty: TypeId,
)
    requires
        before.wf(),
        after.wf(),
        after.grown_from(before),
        before.has_type_trait(trait_id, ty),
    ensures
        after.has_type_trait(trait_id, ty),
        after.type_trait_id(trait_id, ty) == before.type_trait_id(trait_id, ty),
{
    let id = before.type_trait_id(trait_id, ty);
    assert(after.interned@.concrete_traits[id.0 as int]
        == before.interned@.concrete_traits[id.0 as int]);
    lemma_trait_id(after, type_trait(trait_id, ty), id);
}

/// What inference finds for a trait of one type stays as more values are interned.
pub proof fn lemma_type_trait_impl_grown(
    before: SemanticGroup,
    after: SemanticGroup,
    context: ContextView,
    trait_id: TraitId,
    ty: TypeId,
)
    requires
        before.wf(),
        after.wf(),
        after.grown_from(before),
    ensures
        after.type_trait_impl(context, trait_id, ty) == before.type_trait_impl(
            context,
            trait_id,
            ty,
        ),
        before.type_trait_impl(context, trait_id, ty) matches Some(imp) ==> before.has_impl(imp),
{
    reveal(crate::db::SemanticFacts::valid);
    let long = type_trait(trait_id, ty);
    if before.has_type_trait(trait_id, ty) {
        lemma_type_trait_grown(before, after, trait_id, ty);
    } else if after.has_type_trait(trait_id, ty) {
        let id = after.type_trait_id(trait_id, ty);
        if id.0 < before.interned@.concrete_traits.len() {
            assert(is_trait_id(before.interned@.concrete_traits, long, id));
        }
        assert(!before.has_trait(id));
        assert(lookup(after.facts.impl_answers@, (context, id)) is None);
    }
}

// --- Impls with one type ---

/// Whether an impl has one associated type, and that is resolved.
pub open spec fn single_type_ready(db: SemanticGroup, impl_def_id: ImplDefId) -> bool {
    &&& db.definable(impl_def_id)
    &&& db.spec_definition(impl_def_id) matches Ok(d) && d.types.len() == 1 && (
    db.spec_resolved_type(d.types[0].0) is Ok)
}

/// The one associated type of an impl.
pub open spec fn single_type_id(db: SemanticGroup, impl_def_id: ImplDefId) -> ImplTypeDefId {
    db.spec_definition(impl_def_id)->Ok_0.types[0].0
}

/// The type that the one associated type of an impl stands for.
pub open spec fn single_type(db: SemanticGroup, impl_def_id: ImplDefId) -> TypeId {
    db.spec_resolved_type(single_type_id(db, impl_def_id))->Ok_0
}

/// The items in the tables of an impl are items of the impl.
pub proof fn lemma_items_are_own(
    impl_def_id: ImplDefId,
    items: Seq<crate::syntax::ImplItem>,
)
    ensures
        ({
            let v = items_of(impl_def_id, items);
            &&& forall|i: int|
                0 <= i < v.functions.len() ==> (#[trigger] v.functions[i]).0.impl_def_id
                    == impl_def_id
            &&& forall|i: int|
                0 <= i < v.types.len() ==> (#[trigger] v.types[i]).0.impl_def_id == impl_def_id
            &&& forall|i: int|
                0 <= i < v.constants.len() ==> (#[trigger] v.constants[i]).0.impl_def_id
                    == impl_def_id
            &&& forall|i: int|
                0 <= i < v.impls.len() ==> (#[trigger] v.impls[i]).0.impl_def_id == impl_def_id
        }),
    decreases items.len(),
{
    if items.len() > 0 {
        lemma_items_are_own(impl_def_id, items.drop_last());
    }
}

/// The items that the definition of an impl lists are items of the impl.
pub proof fn lemma_definition_items_are_own(db: SemanticGroup, impl_def_id: ImplDefId)
    ensures
        db.spec_definition(impl_def_id) matches Ok(v) ==> {
            &&& forall|i: int|
                0 <= i < v.functions.len() ==> (#[trigger] v.functions[i]).0.impl_def_id
                    == impl_def_id
            &&& forall|i: int|
                0 <= i < v.types.len() ==> (#[trigger] v.types[i]).0.impl_def_id == impl_def_id
            &&& forall|i: int|
                0 <= i < v.constants.len() ==> (#[trigger] v.constants[i]).0.impl_def_id
                    == impl_def_id
            &&& forall|i: int|
                0 <= i < v.impls.len() ==> (#[trigger] v.impls[i]).0.impl_def_id == impl_def_id
        },
{
    if let Ok(v) = db.spec_definition(impl_def_id) {
        match db.spec_impl_ast(impl_def_id)->Ok_0.body {
            Some(items) => {
                lemma_items_are_own(impl_def_id, items@);
            },
            None => {},
        }
    }
}

/// The one associated type of an impl stays as more values are interned.
pub proof fn lemma_single_type_grown(
    before: SemanticGroup,
    after: SemanticGroup,
    impl_def_id: ImplDefId,
)
    requires
        before.wf(),
        after.grown_from(before),
        single_type_ready(before, impl_def_id),
    ensures
        single_type_ready(after, impl_def_id),
        single_type_id(after, impl_def_id) == single_type_id(before, impl_def_id),
        single_type(after, impl_def_id) == single_type(before, impl_def_id),
{
    lemma_definition_grown(before, after, impl_def_id);
    lemma_definition_items_are_own(before, impl_def_id);
    let d = before.spec_definition(impl_def_id)->Ok_0;
    assert(d.types[0].0.impl_def_id == impl_def_id);
    lemma_type_data_grown(before, after, d.types[0].0, false);
}

/// The type that the one associated type of an impl stands for is interned.
proof fn lemma_single_type_interned(db: SemanticGroup, impl_def_id: ImplDefId)
    requires
        db.wf(),
        single_type_ready(db, impl_def_id),
    ensures
        db.has_type(single_type(db, impl_def_id)),
{
    reveal(crate::db::SemanticFacts::valid);
    lemma_definition_items_are_own(db, impl_def_id);
}

/// The type that the one associated type of an impl stands for.
pub fn read_single_type(db: &SemanticGroup, impl_def_id: ImplDefId) -> (res: Maybe<
    (ImplTypeDefId, TypeId),
>)
    requires
        db.wf(),
        single_type_ready(*db, impl_def_id),
    ensures
        res == Ok::<_, DiagnosticAdded>(
            (single_type_id(*db, impl_def_id), single_type(*db, impl_def_id)),
        ),
        db.has_type(single_type(*db, impl_def_id)),
{
    proof {
        lemma_definition_items_are_own(*db, impl_def_id);
    }
    let data = match priv_impl_definition_data(db, impl_def_id) {
        Ok(data) => data,
        Err(e) => return Err(e),
    };
    let (impl_item_type_id, _) = data.item_type_asts.entry_at(0);
    assert(*impl_item_type_id == data@.types[0].0);
    match impl_type_def_resolved_type(db, *impl_item_type_id) {
        Ok(ty) => Ok((*impl_item_type_id, ty)),
        Err(e) => Err(e),
    }
}

// --- One dereference ---

/// The trait, and its function, that dereferences go through.
pub open spec fn deref_trait_and_method(core: CoreInfo, is_mut_deref: bool) -> (
    TraitId,
    TraitFunctionId,
) {
    if is_mut_deref {
        (core.deref_mut_trt, core.deref_mut_fn)
    } else {
        (core.deref_trt, core.deref_fn)
    }
}

/// The lookup context of a dereference: the module of the trait, and the scope of the type.
pub open spec fn deref_context(db: SemanticGroup, trait_id: TraitId, ty: TypeId) -> ContextView {
    let own = ImplOrModuleById::Module(trait_id.module_file_id.0);
    ContextView {
        modules_and_impls: match lookup(db.facts.type_scopes@, ty) {
            Some(scope) => two_scopes(own, scope),
            None => seq![own],
        },
        generic_params: seq![],
    }
}

/// The impl that dereferences a type.
pub open spec fn deref_impl(db: SemanticGroup, ty: TypeId, is_mut_deref: bool) -> Option<ImplId> {
    let trait_id = deref_trait_and_method(db.facts.core, is_mut_deref).0;
    db.type_trait_impl(deref_context(db, trait_id, ty), trait_id, ty)
}

/// Whether an impl that dereferences is a concrete one with one type, which its arguments can be
/// put into.
pub open spec fn deref_ready(db: SemanticGroup, imp: ImplId) -> bool {
    db.spec_impl_long(imp) matches ImplLongId::Concrete(c) && {
        let impl_def_id = db.spec_concrete_impl_long(c).impl_def_id;
        &&& single_type_ready(db, impl_def_id)
        &&& db.spec_impl_substitution(imp, c) matches Ok(s) ==> db.spec_substitute_type(
            s,
            single_type(db, impl_def_id),
        ) is Ok
    }
}

/// The type that an impl dereferences to.
pub open spec fn deref_target(db: SemanticGroup, imp: ImplId) -> TypeId {
    let c = db.spec_impl_long(imp)->Concrete_0;
    db.spec_substitute_type(
        db.spec_impl_substitution(imp, c)->Ok_0,
        single_type(db, db.spec_concrete_impl_long(c).impl_def_id),
    )->Ok_0
}

/// Whether the impl that dereferences a type, where there is one, can be used for it.
pub open spec fn step_ready(db: SemanticGroup, ty: TypeId, is_mut_deref: bool) -> bool {
    deref_impl(db, ty, is_mut_deref) matches Some(imp) ==> deref_ready(db, imp)
}

/// One dereference of a type: the impl that does it, and the type that comes out.
pub open spec fn deref_step(db: SemanticGroup, ty: TypeId, is_mut_deref: bool) -> Option<
    (ImplId, TypeId),
> {
    match deref_impl(db, ty, is_mut_deref) {
        Some(imp) => Some((imp, deref_target(db, imp))),
        None => None,
    }
}

/// Whether a function is that of an impl that dereferences.
pub open spec fn is_deref_function(
    db: SemanticGroup,
    function_id: FunctionId,
    imp: ImplId,
    is_mut_deref: bool,
) -> bool {
    function_id.0 < db.interned@.functions.len() && db.interned@.functions[function_id.0 as int]
        == (FunctionLongId {
        generic_function: GenericFunctionId::Impl(
            ImplGenericFunctionId {
                impl_id: imp,
                function: deref_trait_and_method(db.facts.core, is_mut_deref).1,
            },
        ),
        generic_args: Seq::<GenericArgumentId>::empty(),
    })
}

/// An impl that dereferences stays one as more values are interned.
proof fn lemma_deref_ready_grown(before: SemanticGroup, after: SemanticGroup, imp: ImplId)
    requires
        before.wf(),
        after.grown_from(before),
        before.has_impl(imp),
        deref_ready(before, imp),
    ensures
        deref_ready(after, imp),
        deref_target(after, imp) == deref_target(before, imp),
{
    assert(before.interned@.impl_parts(imp.0 as int, before.interned@.impls[imp.0 as int]));
    assert(after.spec_impl_long(imp) == before.spec_impl_long(imp));
    let c = before.spec_impl_long(imp)->Concrete_0;
    assert(after.spec_concrete_impl_long(c) == before.spec_concrete_impl_long(c));
    lemma_single_type_grown(before, after, before.spec_concrete_impl_long(c).impl_def_id);
}

/// A dereference stays what it is as more values are interned.
proof fn lemma_deref_step_grown(
    before: SemanticGroup,
    after: SemanticGroup,
    ty: TypeId,
    is_mut_deref: bool,
)
    requires
        before.wf(),
        after.wf(),
        after.grown_from(before),
        step_ready(before, ty, is_mut_deref),
    ensures
        step_ready(after, ty, is_mut_deref),
        deref_step(after, ty, is_mut_deref) == deref_step(before, ty, is_mut_deref),
{
    let trait_id = deref_trait_and_method(before.facts.core, is_mut_deref).0;
    let context = deref_context(before, trait_id, ty);
    lemma_type_trait_impl_grown(before, after, context, trait_id, ty);
    if let Some(imp) = deref_impl(before, ty, is_mut_deref) {
        lemma_deref_ready_grown(before, after, imp);
    }
}

/// A dereference leads to a type.
proof fn lemma_deref_target(db: SemanticGroup, ty: TypeId, is_mut_deref: bool)
    requires
        db.wf(),
        step_ready(db, ty, is_mut_deref),
    ensures
        deref_step(db, ty, is_mut_deref) matches Some((_, target)) ==> db.has_type(target),
{
    reveal(crate::db::SemanticFacts::valid);
    let trait_id = deref_trait_and_method(db.facts.core, is_mut_deref).0;
    lemma_type_trait_impl_grown(db, db, deref_context(db, trait_id, ty), trait_id, ty);
    if let Some(imp) = deref_impl(db, ty, is_mut_deref) {
        let c = db.spec_impl_long(imp)->Concrete_0;
        let impl_def_id = db.spec_concrete_impl_long(c).impl_def_id;
        lemma_single_type_interned(db, impl_def_id);
    }
}

/// Tries to find the deref function and the target type for a given type and deref trait.
pub fn try_get_deref_func_and_target(
    db: &mut SemanticGroup,
    ty: TypeId,
    is_mut_deref: bool,
) -> (res: Maybe<Option<(FunctionId, TypeId)>>)
    requires
        old(db).wf(),
        old(db).has_type(ty),
        step_ready(*old(db), ty, is_mut_deref),
    ensures
        final(db).wf(),
        final(db).grown_from(*old(db)),
        final(db).interned@.types == old(db).interned@.types,
        step_ready(*final(db), ty, is_mut_deref),
        final(db).has_type_trait(deref_trait_and_method(old(db).facts.core, is_mut_deref).0, ty),
        deref_step(*final(db), ty, is_mut_deref) == deref_step(*old(db), ty, is_mut_deref),
        match deref_step(*final(db), ty, is_mut_deref) {
            Some((imp, target)) => res matches Ok(Some((function_id, t))) && t == target
                && final(db).has_type(t) && is_deref_function(
                *final(db),
                function_id,
                imp,
                is_mut_deref,
            ),
            None => res matches Ok(None),
        },
{
    let ghost before = *db;
    let info = db.facts.core;
    let (deref_trait_id, deref_method) = if is_mut_deref {
        (info.deref_mut_trt, info.deref_mut_fn)
    } else {
        (info.deref_trt, info.deref_fn)
    };
    let no_params: Vec<GenericParamId> = Vec::new();
    let own_module = deref_trait_id.module_file_id.0;
    let mut lookup_context = ImplLookupContext::new(own_module, no_params);
    if let Some(scope) = db.facts.type_scopes.get(&ty) {
        match *scope {
            ImplOrModuleById::Module(module_id) => {
                lookup_context.insert_module(module_id);
            },
            ImplOrModuleById::Impl(impl_id) => {
                lookup_context.insert_impl(impl_id);
            },
        }
        proof {
            lemma_two_scopes(
                ImplOrModuleById::Module(own_module),
                *scope,
                lookup_context@.modules_and_impls,
            );
        }
    }
    assert(lookup_context@ =~= deref_context(*db, deref_trait_id, ty));
    let concrete_trait = db.intern_type_trait(deref_trait_id, ty);
    let ghost middle = *db;
    proof {
        lemma_deref_step_grown(before, middle, ty, is_mut_deref);
    }
    let deref_impl = match db.get_impl_at_context(lookup_context, concrete_trait) {
        Ok(imp) => imp,
        Err(_) => return Ok(None),
    };
    proof {
        assert(deref_ready(middle, deref_impl));
        assert(middle.interned@.impl_parts(
            deref_impl.0 as int,
            middle.interned@.impls[deref_impl.0 as int],
        ));
    }
    let concrete_impl_id = match db.impl_long(deref_impl) {
        ImplLongId::Concrete(concrete_impl_id) => concrete_impl_id,
        _ => return Err(skip_diagnostic()),
    };
    let no_args: Vec<GenericArgumentId> = Vec::new();
    assert(no_args@ =~= Seq::<GenericArgumentId>::empty());
    let function_id = db.intern_function(
        FunctionLongId {
            generic_function: GenericFunctionId::Impl(
                ImplGenericFunctionId { impl_id: deref_impl, function: deref_method },
            ),
            generic_args: no_args,
        },
    );
    proof {
        lemma_deref_ready_grown(middle, *db, deref_impl);
        lemma_deref_step_grown(middle, *db, ty, is_mut_deref);
        lemma_type_trait_grown(middle, *db, deref_trait_id, ty);
        assert(db.spec_impl_long(deref_impl) == middle.spec_impl_long(deref_impl));
    }
    let (_, impl_ty) = match read_single_type(db, concrete_impl_id.impl_def_id(db)) {
        Ok(found) => found,
        Err(e) => return Err(e),
    };
    let substitution = match db.impl_substitution(deref_impl, concrete_impl_id) {
        Ok(substitution) => substitution,
        Err(e) => return Err(e),
    };
    match db.substitute_type(&substitution, impl_ty) {
        Ok(target) => Ok(Some((function_id, target))),
        Err(e) => Err(e),
    }
}

// --- Chains ---

/// The dereferences from a type on, where at most `fuel` of them come to an end.
pub open spec fn deref_rest(db: SemanticGroup, ty: TypeId, fuel: nat) -> Option<
    Seq<(ImplId, TypeId)>,
>
    decreases fuel,
{
    match deref_step(db, ty, false) {
        None => Some(seq![]),
        Some(step) => if fuel == 0 {
            None
        } else {
            match deref_rest(db, step.1, (fuel - 1) as nat) {
                Some(rest) => Some(seq![step] + rest),
                None => None,
            }
        },
    }
}

/// One dereference in a chain.
#[derive(Clone, Copy, PartialEq, Eq, Structural)]
pub struct DerefStep {
    pub imp: ImplId,
    pub self_mutability: Mutability,
    pub target_ty: TypeId,
}

/// The first dereference of a type: a mutable one, where that is tried and there is one.
pub open spec fn first_deref(db: SemanticGroup, ty: TypeId, try_deref_mut: bool) -> Option<
    DerefStep,
> {
    let (step, self_mutability) = if try_deref_mut && deref_step(db, ty, true) is Some {
        (deref_step(db, ty, true), Mutability::Reference)
    } else {
        (deref_step(db, ty, false), Mutability::Immutable)
    };
    match step {
        Some((imp, target_ty)) => Some(DerefStep { imp, self_mutability, target_ty }),
        None => None,
    }
}

/// The later dereferences of a chain, which are not mutable.
pub open spec fn later_derefs(rest: Seq<(ImplId, TypeId)>) -> Seq<DerefStep> {
    Seq::new(
        rest.len(),
        |i: int|
            DerefStep {
                imp: rest[i].0,
                self_mutability: Mutability::Immutable,
                target_ty: rest[i].1,
            },
    )
}

/// The chain of dereferences of a type; there is none where it does not end, which is where it
/// takes more dereferences than there are types.
pub open spec fn deref_steps(db: SemanticGroup, ty: TypeId, try_deref_mut: bool) -> Option<
    Seq<DerefStep>,
> {
    match first_deref(db, ty, try_deref_mut) {
        None => Some(seq![]),
        Some(first) => match deref_rest(db, first.target_ty, db.interned@.types.len()) {
            Some(rest) => Some(seq![first] + later_derefs(rest)),
            None => None,
        },
    }
}

/// Whether the impls that up to `fuel` dereferences from a type on meet can be used for them.
pub open spec fn rest_ready(db: SemanticGroup, ty: TypeId, fuel: nat) -> bool
    decreases fuel,
{
    &&& step_ready(db, ty, false)
    &&& match deref_step(db, ty, false) {
        Some((_, target)) => fuel > 0 ==> rest_ready(db, target, (fuel - 1) as nat),
        None => true,
    }
}

/// Whether the impls that the chain of dereferences of a type meets can be used for them.
pub open spec fn chain_ready(db: SemanticGroup, ty: TypeId, try_deref_mut: bool) -> bool {
    &&& try_deref_mut ==> step_ready(db, ty, true)
    &&& !(try_deref_mut && deref_step(db, ty, true) is Some) ==> step_ready(db, ty, false)
    &&& match first_deref(db, ty, try_deref_mut) {
        Some(first) => rest_ready(db, first.target_ty, db.interned@.types.len()),
        None => true,
    }
}

/// Whether the types that dereferences lead to are interned, and their chains can be asked for.
pub open spec fn targets_ready(db: SemanticGroup, derefs: Seq<DerefInfo>) -> bool {
    forall|i: int|
        0 <= i < derefs.len() ==> db.has_type((#[trigger] derefs[i]).target_ty) && chain_ready(
            db,
            derefs[i].target_ty,
            false,
        )
}

/// The dereferences from a type on stay what they are as more values are interned.
proof fn lemma_rest_grown(before: SemanticGroup, after: SemanticGroup, ty: TypeId, fuel: nat)
    requires
        before.wf(),
        after.wf(),
        after.grown_from(before),
        rest_ready(before, ty, fuel),
    ensures
        rest_ready(after, ty, fuel),
        deref_rest(after, ty, fuel) == deref_rest(before, ty, fuel),
    decreases fuel,
{
    lemma_deref_step_grown(before, after, ty, false);
    if let Some((_, target)) = deref_step(before, ty, false) {
        if fuel > 0 {
            lemma_rest_grown(before, after, target, (fuel - 1) as nat);
        }
    }
}

/// A chain of dereferences stays what it is as more values, but no types, are interned.
proof fn lemma_chain_grown(
    before: SemanticGroup,
    after: SemanticGroup,
    ty: TypeId,
    try_deref_mut: bool,
)
    requires
        before.wf(),
        after.wf(),
        after.grown_from(before),
        after.interned@.types == before.interned@.types,
        chain_ready(before, ty, try_deref_mut),
    ensures
        chain_ready(after, ty, try_deref_mut),
        first_deref(after, ty, try_deref_mut) == first_deref(before, ty, try_deref_mut),
        deref_steps(after, ty, try_deref_mut) == deref_steps(before, ty, try_deref_mut),
{
    if try_deref_mut {
        lemma_deref_step_grown(before, after, ty, true);
    }
    if !(try_deref_mut && deref_step(before, ty, true) is Some) {
        lemma_deref_step_grown(before, after, ty, false);
    }
    if let Some(first) = first_deref(before, ty, try_deref_mut) {
        lemma_rest_grown(before, after, first.target_ty, before.interned@.types.len());
    }
}

/// Dereferences that come to an end meet no more impls with more fuel.
proof fn lemma_rest_ready_with_more_fuel(db: SemanticGroup, ty: TypeId, fuel: nat, more: nat)
    requires
        rest_ready(db, ty, fuel),
        deref_rest(db, ty, fuel) is Some,
    ensures
        rest_ready(db, ty, more),
    decreases fuel,
{
    if let Some((_, target)) = deref_step(db, ty, false) {
        if more > 0 {
            lemma_rest_ready_with_more_fuel(db, target, (fuel - 1) as nat, (more - 1) as nat);
        }
    }
}

/// The chain of a type whose dereferences come to an end can be asked for.
proof fn lemma_ended_chain_ready(db: SemanticGroup, ty: TypeId, fuel: nat)
    requires
        rest_ready(db, ty, fuel),
        deref_rest(db, ty, fuel) is Some,
    ensures
        chain_ready(db, ty, false),
{
    if let Some((_, target)) = deref_step(db, ty, false) {
        lemma_rest_ready_with_more_fuel(
            db,
            target,
            (fuel - 1) as nat,
            db.interned@.types.len(),
        );
    }
}

/// The types that dereferences lead to are interned, and their chains can be asked for.
proof fn lemma_rest_targets(
    db: SemanticGroup,
    ty: TypeId,
    fuel: nat,
    rest: Seq<(ImplId, TypeId)>,
)
    requires
        db.wf(),
        rest_ready(db, ty, fuel),
        deref_rest(db, ty, fuel) == Some(rest),
    ensures
        forall|i: int|
            0 <= i < rest.len() ==> db.has_type((#[trigger] rest[i]).1) && chain_ready(
                db,
                rest[i].1,
                false,
            ),
    decreases fuel,
{
    if let Some(step) = deref_step(db, ty, false) {
        let later = deref_rest(db, step.1, (fuel - 1) as nat)->0;
        lemma_deref_target(db, ty, false);
        lemma_ended_chain_ready(db, step.1, (fuel - 1) as nat);
        lemma_rest_targets(db, step.1, (fuel - 1) as nat, later);
        assert forall|i: int| 0 <= i < rest.len() implies db.has_type((#[trigger] rest[i]).1)
            && chain_ready(db, rest[i].1, false) by {
            if i > 0 {
                assert(rest[i] == later[i - 1]);
            }
        }
    }
}

/// Whether a list tells of these dereferences.
pub open spec fn tells_derefs(
    db: SemanticGroup,
    derefs: Seq<DerefInfo>,
    steps: Seq<DerefStep>,
) -> bool {
    &&& derefs.len() == steps.len()
    &&& forall|i: int|
        0 <= i < derefs.len() ==> {
            &&& (#[trigger] derefs[i]).target_ty == steps[i].target_ty
            &&& derefs[i].self_mutability == steps[i].self_mutability
            &&& is_deref_function(
                db,
                derefs[i].function_id,
                steps[i].imp,
                steps[i].self_mutability == Mutability::Reference,
            )
        }
}

/// A chain of dereferences that does not end.
pub fn deref_chain_cycle(_ty: TypeId, _try_deref_mut: bool) -> (res: Maybe<DerefChain>)
    ensures
        res is Err,
{
    Err(skip_diagnostic())
}

/// The dereferences from a type on, where at most `fuel` of them come to an end.
fn deref_chain_within(db: &mut SemanticGroup, ty: TypeId, fuel: u64) -> (res: Maybe<DerefChain>)
    requires
        old(db).wf(),
        old(db).has_type(ty),
        rest_ready(*old(db), ty, fuel as nat),
    ensures
        final(db).wf(),
        final(db).grown_from(*old(db)),
        final(db).interned@.types == old(db).interned@.types,
        match res {
            Ok(chain) => deref_rest(*final(db), ty, fuel as nat) matches Some(rest) && tells_derefs(
                *final(db),
                chain.derefs@,
                later_derefs(rest),
            ),
            Err(_) => deref_rest(*final(db), ty, fuel as nat) is None,
        },
    decreases fuel,
{
    let ghost before = *db;
    let found = match try_get_deref_func_and_target(db, ty, false) {
        Ok(found) => found,
        Err(e) => return Err(e),
    };
    let ghost middle = *db;
    let (function_id, target_ty) = match found {
        Some(found) => found,
        None => {
            let derefs: Vec<DerefInfo> = Vec::new();
            assert(later_derefs(deref_rest(*db, ty, fuel as nat)->0) =~= Seq::empty());
            return Ok(DerefChain { derefs });
        },
    };
    if fuel == 0 {
        return deref_chain_cycle(ty, false);
    }
    proof {
        lemma_rest_grown(before, middle, ty, fuel as nat);
    }
    let inner_chain = deref_chain_within(db, target_ty, fuel - 1);
    proof {
        lemma_deref_step_grown(middle, *db, ty, false);
    }
    let inner_chain = match inner_chain {
        Ok(chain) => chain,
        Err(e) => return Err(e),
    };
    let first = DerefInfo { function_id, self_mutability: Mutability::Immutable, target_ty };
    let derefs = prepend(first, &inner_chain.derefs);
    proof {
        let step = deref_step(*db, ty, false)->0;
        let rest = deref_rest(*db, target_ty, (fuel - 1) as nat)->0;
        let all = deref_rest(*db, ty, fuel as nat)->0;
        assert(all =~= seq![step] + rest);
        assert(middle.interned@.functions[function_id.0 as int]
            == db.interned@.functions[function_id.0 as int]);
        lemma_tells_prepended(
            *db,
            first,
            inner_chain.derefs@,
            later_derefs(all)[0],
            later_derefs(rest),
        );
        assert(later_derefs(all) =~= seq![later_derefs(all)[0]] + later_derefs(rest));
    }
    Ok(DerefChain { derefs })
}

fn prepend(first: DerefInfo, rest: &Vec<DerefInfo>) -> (res: Vec<DerefInfo>)
    ensures
        res@ == seq![first] + rest@,
{
    let mut res: Vec<DerefInfo> = Vec::new();
    res.push(first);
    let mut tail = crate::collections::copy_ids(rest);
    res.append(&mut tail);
    assert(res@ =~= seq![first] + rest@);
    res
}

proof fn lemma_tells_prepended(
    db: SemanticGroup,
    info: DerefInfo,
    derefs: Seq<DerefInfo>,
    step: DerefStep,
    steps: Seq<DerefStep>,
)
    requires
        tells_derefs(db, derefs, steps),
        info.target_ty == step.target_ty,
        info.self_mutability == step.self_mutability,
        is_deref_function(
            db,
            info.function_id,
            step.imp,
            step.self_mutability == Mutability::Reference,
        ),
    ensures
        tells_derefs(db, seq![info] + derefs, seq![step] + steps),
{
    let all = seq![info] + derefs;
    let all_steps = seq![step] + steps;
    assert forall|i: int| 0 <= i < all.len() implies {
        &&& (#[trigger] all[i]).target_ty == all_steps[i].target_ty
        &&& all[i].self_mutability == all_steps[i].self_mutability
        &&& is_deref_function(
            db,
            all[i].function_id,
            all_steps[i].imp,
            all_steps[i].self_mutability == Mutability::Reference,
        )
    } by {
        if i > 0 {
            assert(all[i] == derefs[i - 1]);
            assert(all_steps[i] == steps[i - 1]);
        }
    }
}

/// The first dereference of a type.
fn find_first_deref(db: &mut SemanticGroup, ty: TypeId, try_deref_mut: bool) -> (res: Maybe<
    Option<DerefInfo>,
>)
    requires
        old(db).wf(),
        old(db).has_type(ty),
        chain_ready(*old(db), ty, try_deref_mut),
    ensures
        final(db).wf(),
        final(db).grown_from(*old(db)),
        final(db).interned@.types == old(db).interned@.types,
        chain_ready(*final(db), ty, try_deref_mut),
        match first_deref(*final(db), ty, try_deref_mut) {
            Some(step) => res matches Ok(Some(info)) && info.target_ty == step.target_ty
                && info.self_mutability == step.self_mutability && final(db).has_type(
                info.target_ty,
            ) && is_deref_function(
                *final(db),
                info.function_id,
                step.imp,
                step.self_mutability == Mutability::Reference,
            ),
            None => res matches Ok(None),
        },
{
    let ghost before = *db;
    if try_deref_mut {
        let found = try_get_deref_func_and_target(db, ty, true);
        proof {
            lemma_chain_grown(before, *db, ty, try_deref_mut);
        }
        match found {
            Ok(Some((function_id, target_ty))) => {
                return Ok(
                    Some(
                        DerefInfo {
                            function_id,
                            self_mutability: Mutability::Reference,
                            target_ty,
                        },
                    ),
                );
            },
            Ok(None) => {},
            Err(e) => return Err(e),
        }
    }
    let ghost tried = *db;
    let found = try_get_deref_func_and_target(db, ty, false);
    proof {
        lemma_chain_grown(tried, *db, ty, try_deref_mut);
        if try_deref_mut {
            lemma_deref_step_grown(tried, *db, ty, true);
        }
    }
    match found {
        Ok(Some((function_id, target_ty))) => Ok(
            Some(
                DerefInfo { function_id, self_mutability: Mutability::Immutable, target_ty },
            ),
        ),
        Ok(None) => Ok(None),
        Err(e) => Err(e),
    }
}

/// The types that a chain of dereferences leads to are interned, and their chains can be asked
/// for.
proof fn lemma_chain_targets(
    db: SemanticGroup,
    ty: TypeId,
    try_deref_mut: bool,
    derefs: Seq<DerefInfo>,
)
    requires
        db.wf(),
        chain_ready(db, ty, try_deref_mut),
        deref_steps(db, ty, try_deref_mut) matches Some(steps) && tells_derefs(db, derefs, steps),
    ensures
        targets_ready(db, derefs),
{
    if let Some(first) = first_deref(db, ty, try_deref_mut) {
        let n = db.interned@.types.len();
        let rest = deref_rest(db, first.target_ty, n)->0;
        lemma_deref_target(db, ty, first.self_mutability == Mutability::Reference);
        lemma_ended_chain_ready(db, first.target_ty, n);
        lemma_rest_targets(db, first.target_ty, n, rest);
        assert forall|i: int| 0 <= i < derefs.len() implies db.has_type(
            (#[trigger] derefs[i]).target_ty,
        ) && chain_ready(db, derefs[i].target_ty, false) by {
            if i > 0 {
                assert(derefs[i].target_ty == rest[i - 1].1);
            } else {
                assert(derefs[i].target_ty == first.target_ty);
            }
        }
    }
}

/// Whether a dereference is the first of a type.
spec fn is_first_deref(
    db: SemanticGroup,
    ty: TypeId,
    try_deref_mut: bool,
    info: DerefInfo,
) -> bool {
    first_deref(db, ty, try_deref_mut) matches Some(step) && info.target_ty == step.target_ty
        && info.self_mutability == step.self_mutability && is_deref_function(
        db,
        info.function_id,
        step.imp,
        step.self_mutability == Mutability::Reference,
    )
}

/// A first dereference and those from its target on make up a chain.
proof fn lemma_chain_told(
    db: SemanticGroup,
    ty: TypeId,
    try_deref_mut: bool,
    first: DerefInfo,
    inner: Seq<DerefInfo>,
)
    requires
        is_first_deref(db, ty, try_deref_mut, first),
        deref_rest(db, first.target_ty, db.interned@.types.len()) matches Some(rest)
            && tells_derefs(db, inner, later_derefs(rest)),
    ensures
        deref_steps(db, ty, try_deref_mut) matches Some(steps) && tells_derefs(
            db,
            seq![first] + inner,
            steps,
        ),
{
    let step = first_deref(db, ty, try_deref_mut)->0;
    let rest = deref_rest(db, first.target_ty, db.interned@.types.len())->0;
    lemma_tells_prepended(db, first, inner, step, later_derefs(rest));
}

proof fn lemma_is_first_deref_grown(
    before: SemanticGroup,
    after: SemanticGroup,
    ty: TypeId,
    try_deref_mut: bool,
    first: DerefInfo,
)
    requires
        before.wf(),
        after.wf(),
        after.grown_from(before),
        after.interned@.types == before.interned@.types,
        chain_ready(before, ty, try_deref_mut),
        is_first_deref(before, ty, try_deref_mut, first),
    ensures
        is_first_deref(after, ty, try_deref_mut, first),
{
    lemma_chain_grown(before, after, ty, try_deref_mut);
    assert(before.interned@.functions[first.function_id.0 as int]
        == after.interned@.functions[first.function_id.0 as int]);
}

/// The dereferences from the first target of a chain on.
fn rest_of_chain(
    db: &mut SemanticGroup,
    ty: TypeId,
    try_deref_mut: bool,
    first: DerefInfo,
) -> (res: Maybe<DerefChain>)
    requires
        old(db).wf(),
        old(db).has_type(first.target_ty),
        chain_ready(*old(db), ty, try_deref_mut),
        is_first_deref(*old(db), ty, try_deref_mut, first),
    ensures
        final(db).wf(),
        final(db).grown_from(*old(db)),
        final(db).interned@.types == old(db).interned@.types,
        is_first_deref(*final(db), ty, try_deref_mut, first),
        ({
            let rest = deref_rest(
                *final(db),
                first.target_ty,
                final(db).interned@.types.len(),
            );
            match res {
                Ok(chain) => rest matches Some(rest) && tells_derefs(
                    *final(db),
                    chain.derefs@,
                    later_derefs(rest),
                ),
                Err(_) => rest is None,
            }
        }),
{
    let ghost before = *db;
    let count: usize = db.interned.types.len();
    let res = deref_chain_within(db, first.target_ty, count as u64);
    proof {
        lemma_is_first_deref_grown(before, *db, ty, try_deref_mut, first);
    }
    res
}

/// The chain of dereferences of a type.
pub fn deref_chain(db: &mut SemanticGroup, ty: TypeId, try_deref_mut: bool) -> (res: Maybe<
    DerefChain,
>)
    requires
        old(db).wf(),
        old(db).has_type(ty),
        chain_ready(*old(db), ty, try_deref_mut),
    ensures
        final(db).wf(),
        final(db).grown_from(*old(db)),
        final(db).interned@.types == old(db).interned@.types,
        chain_ready(*final(db), ty, try_deref_mut),
        deref_steps(*final(db), ty, try_deref_mut) == deref_steps(*old(db), ty, try_deref_mut),
        match res {
            Ok(chain) => deref_steps(*final(db), ty, try_deref_mut) matches Some(steps)
                && tells_derefs(*final(db), chain.derefs@, steps) && targets_ready(
                *final(db),
                chain.derefs@,
            ),
            Err(_) => deref_steps(*final(db), ty, try_deref_mut) is None,
        },
{
    let ghost before = *db;
    let first = find_first_deref(db, ty, try_deref_mut);
    proof {
        lemma_chain_grown(before, *db, ty, try_deref_mut);
    }
    let first = match first {
        Ok(Some(first)) => first,
        Ok(None) => {
            let derefs: Vec<DerefInfo> = Vec::new();
            return Ok(DerefChain { derefs });
        },
        Err(e) => return Err(e),
    };
    let inner_chain = rest_of_chain(db, ty, try_deref_mut, first);
    proof {
        lemma_chain_grown(before, *db, ty, try_deref_mut);
    }
    let inner_chain = match inner_chain {
        Ok(chain) => chain,
        Err(e) => return Err(e),
    };
    let derefs = prepend(first, &inner_chain.derefs);
    proof {
        lemma_chain_told(*db, ty, try_deref_mut, first, inner_chain.derefs@);
        lemma_chain_targets(*db, ty, try_deref_mut, derefs@);
    }
    Ok(DerefChain { derefs })
}

// --- Laws ---

/// The type after some dereferences, where there are as many.
pub open spec fn deref_walk(db: SemanticGroup, ty: TypeId, steps: nat) -> Option<TypeId>
    decreases steps,
{
    if steps == 0 {
        Some(ty)
    } else {
        match deref_walk(db, ty, (steps - 1) as nat) {
            Some(t) => match deref_step(db, t, false) {
                Some((_, target)) => Some(target),
                None => None,
            },
            None => None,
        }
    }
}

/// Starting one dereference later is walking one dereference less.
proof fn lemma_walk_from_next(db: SemanticGroup, ty: TypeId, steps: nat)
    requires
        deref_step(db, ty, false) is Some,
    ensures
        deref_walk(db, ty, steps + 1) == deref_walk(
            db,
            (deref_step(db, ty, false)->0).1,
            steps,
        ),
    decreases steps,
{
    reveal_with_fuel(deref_walk, 2);
    if steps > 0 {
        lemma_walk_from_next(db, ty, (steps - 1) as nat);
    }
}

/// The dereferences of a type come to an end with `fuel` of them exactly where the walk stops
/// within that many.
proof fn lemma_rest_is_walk(db: SemanticGroup, ty: TypeId, fuel: nat)
    ensures
        deref_rest(db, ty, fuel) is Some <==> exists|k: nat|
            k <= fuel && #[trigger] deref_walk(db, ty, k) is Some && deref_step(
                db,
                deref_walk(db, ty, k)->0,
                false,
            ) is None,
    decreases fuel,
{
    let stops = |t: TypeId, k: nat|
        deref_walk(db, t, k) is Some && deref_step(db, deref_walk(db, t, k)->0, false) is None;
    assert(deref_walk(db, ty, 0) == Some(ty));
    match deref_step(db, ty, false) {
        None => {
            assert(stops(ty, 0));
        },
        Some(step) => {
            if fuel == 0 {
                assert forall|k: nat| k <= fuel implies !(#[trigger] deref_walk(db, ty, k) is Some
                    && deref_step(db, deref_walk(db, ty, k)->0, false) is None) by {
                    assert(k == 0);
                }
            } else {
                lemma_rest_is_walk(db, step.1, (fuel - 1) as nat);
                if deref_rest(db, ty, fuel) is Some {
                    let k = choose|k: nat|
                        k <= fuel - 1 && #[trigger] deref_walk(db, step.1, k) is Some
                            && deref_step(db, deref_walk(db, step.1, k)->0, false) is None;
                    lemma_walk_from_next(db, ty, k);
                    assert(deref_walk(db, ty, k + 1) is Some);
                }
                if exists|k: nat|
                    k <= fuel && #[trigger] deref_walk(db, ty, k) is Some && deref_step(
                        db,
                        deref_walk(db, ty, k)->0,
                        false,
                    ) is None {
                    let k = choose|k: nat|
                        k <= fuel && #[trigger] deref_walk(db, ty, k) is Some && deref_step(
                            db,
                            deref_walk(db, ty, k)->0,
                            false,
                        ) is None;
                    assert(k > 0);
                    lemma_walk_from_next(db, ty, (k - 1) as nat);
                    assert(deref_walk(db, step.1, (k - 1) as nat) is Some);
                }
            }
        },
    }
}

/// A walk that gets somewhere got everywhere before.
proof fn lemma_walk_prefix(db: SemanticGroup, ty: TypeId, i: nat, k: nat)
    requires
        i <= k,
        deref_walk(db, ty, k) is Some,
    ensures
        deref_walk(db, ty, i) is Some,
    decreases k,
{
    if i < k {
        lemma_walk_prefix(db, ty, i, (k - 1) as nat);
    }
}

/// Two walks that meet go on alike.
proof fn lemma_walks_meet(db: SemanticGroup, ty: TypeId, i: nat, j: nat, m: nat)
    requires
        deref_walk(db, ty, i) == deref_walk(db, ty, j),
    ensures
        deref_walk(db, ty, i + m) == deref_walk(db, ty, j + m),
    decreases m,
{
    if m > 0 {
        lemma_walks_meet(db, ty, i, j, (m - 1) as nat);
    }
}

/// The types that a walk comes by are interned.
proof fn lemma_walk_among_types(db: SemanticGroup, ty: TypeId, k: nat, n: nat)
    requires
        db.wf(),
        db.has_type(ty),
        k <= n,
        rest_ready(db, ty, n),
    ensures
        deref_walk(db, ty, k) matches Some(t) ==> db.has_type(t) && rest_ready(
            db,
            t,
            (n - k) as nat,
        ),
    decreases k,
{
    if k > 0 {
        lemma_walk_among_types(db, ty, (k - 1) as nat, n);
        if let Some(t) = deref_walk(db, ty, (k - 1) as nat) {
            lemma_deref_target(db, t, false);
        }
    }
}

/// A chain of dereferences that takes more of them than there are types never ends: it is given
/// up exactly where it goes round in a circle.
pub proof fn law_long_deref_chains_are_endless(db: SemanticGroup, ty: TypeId, fuel: nat)
    requires
        db.wf(),
        db.has_type(ty),
        rest_ready(db, ty, db.interned@.types.len()),
        deref_rest(db, ty, db.interned@.types.len()) is None,
    ensures
        deref_rest(db, ty, fuel) is None,
        exists|i: nat, j: nat|
            i < j && #[trigger] deref_walk(db, ty, i) is Some && #[trigger] deref_walk(db, ty, j)
                == deref_walk(db, ty, i),
{
    let n = db.interned@.types.len();
    assert forall|k: nat| k <= n implies (#[trigger] deref_walk(db, ty, k) matches Some(t)
        ==> db.has_type(t)) by {
        lemma_walk_among_types(db, ty, k, n);
    }
    lemma_long_walk_is_endless(db, ty, fuel);
}

proof fn lemma_long_walk_is_endless(db: SemanticGroup, ty: TypeId, fuel: nat)
    requires
        forall|k: nat|
            k <= db.interned@.types.len() ==> (#[trigger] deref_walk(db, ty, k) matches Some(t)
                ==> db.has_type(t)),
        deref_rest(db, ty, db.interned@.types.len()) is None,
    ensures
        deref_rest(db, ty, fuel) is None,
        exists|i: nat, j: nat|
            i < j && #[trigger] deref_walk(db, ty, i) is Some && #[trigger] deref_walk(db, ty, j)
                == deref_walk(db, ty, i),
{
    let n = db.interned@.types.len();
    lemma_rest_is_walk(db, ty, n);
    // The walk takes more steps than there are types.
    assert(forall|k: nat| k <= n ==> #[trigger] deref_walk(db, ty, k) is Some) by {
        lemma_walk_on(db, ty, n);
    }
    let s = Seq::new(n + 1, |k: int| (deref_walk(db, ty, k as nat)->0).0 as int);
    assert forall|k: int| 0 <= k < s.len() implies 0 <= #[trigger] s[k] < n by {
        assert(deref_walk(db, ty, k as nat) is Some);
    }
    crate::collections::lemma_pigeonhole(s, n);
    let (a, b) = choose|a: int, b: int|
        0 <= a < b < s.len() && #[trigger] s[a] == #[trigger] s[b];
    let i = a as nat;
    let j = b as nat;
    assert(deref_walk(db, ty, i) is Some && deref_walk(db, ty, j) is Some);
    assert(deref_walk(db, ty, j) == deref_walk(db, ty, i));
    // So it never stops.
    lemma_rest_is_walk(db, ty, fuel);
    if deref_rest(db, ty, fuel) is Some {
        let k = choose|k: nat|
            k <= fuel && #[trigger] deref_walk(db, ty, k) is Some && deref_step(
                db,
                deref_walk(db, ty, k)->0,
                false,
            ) is None;
        assert(k > n);
        let m = (k - j) as nat;
        lemma_walks_meet(db, ty, i, j, m);
        lemma_walk_prefix(db, ty, i + m + 1, k);
        assert(deref_walk(db, ty, i + m + 1) is Some);
    }
}

proof fn lemma_walk_on(db: SemanticGroup, ty: TypeId, n: nat)
    requires
        forall|k: nat|
            k <= n ==> !(#[trigger] deref_walk(db, ty, k) is Some && deref_step(
                db,
                deref_walk(db, ty, k)->0,
                false,
            ) is None),
    ensures
        forall|k: nat| k <= n ==> #[trigger] deref_walk(db, ty, k) is Some,
{
    assert forall|k: nat| k <= n implies #[trigger] deref_walk(db, ty, k) is Some by {
        lemma_walk_on_at(db, ty, n, k);
    }
}

proof fn lemma_walk_on_at(db: SemanticGroup, ty: TypeId, n: nat, k: nat)
    requires
        k <= n,
        forall|k: nat|
            k <= n ==> !(#[trigger] deref_walk(db, ty, k) is Some && deref_step(
                db,
                deref_walk(db, ty, k)->0,
                false,
            ) is None),
    ensures
        deref_walk(db, ty, k) is Some,
    decreases k,
{
    if k > 0 {
        lemma_walk_on_at(db, ty, n, (k - 1) as nat);
    }
}

/// More fuel finds the same dereferences.
proof fn lemma_rest_with_more_fuel(db: SemanticGroup, ty: TypeId, fuel: nat)
    requires
        deref_rest(db, ty, fuel) is Some,
    ensures
        deref_rest(db, ty, fuel + 1) == deref_rest(db, ty, fuel),
    decreases fuel,
{
    if let Some(step) = deref_step(db, ty, false) {
        lemma_rest_with_more_fuel(db, step.1, (fuel - 1) as nat);
    }
}

/// The chain of a type that can be dereferenced is its first dereference, and then the chain of
/// the type that this leads to; where that does not end, this does not.
pub proof fn law_chains_go_on_from_their_targets(
    db: SemanticGroup,
    ty: TypeId,
    try_deref_mut: bool,
    first: DerefStep,
)
    requires
        db.wf(),
        chain_ready(db, ty, try_deref_mut),
        first_deref(db, ty, try_deref_mut) == Some(first),
    ensures
        db.has_type(first.target_ty),
        deref_steps(db, ty, try_deref_mut) == match deref_steps(db, first.target_ty, false) {
            Some(rest) => Some(seq![first] + rest),
            None => None,
        },
{
    let n = db.interned@.types.len();
    let t = first.target_ty;
    lemma_deref_target(db, ty, first.self_mutability == Mutability::Reference);
    match deref_step(db, t, false) {
        None => {
            assert(later_derefs(seq![]) =~= seq![]);
        },
        Some(step) => {
            if let Some(rest) = deref_rest(db, step.1, (n - 1) as nat) {
                lemma_rest_with_more_fuel(db, step.1, (n - 1) as nat);
                assert(deref_rest(db, t, n) == Some(seq![step] + rest));
                let second = first_deref(db, t, false)->0;
                assert(later_derefs(seq![step] + rest) =~= seq![second] + later_derefs(rest));
            } else {
                assert(deref_rest(db, t, n) is None);
                law_long_deref_chains_are_endless(db, t, n + 1);
                assert(deref_rest(db, step.1, n) is None);
            }
        },
    }
}

/// A chain of dereferences is complete: the type that it ends with cannot be dereferenced, and a
/// type without a chain of its own cannot either.
pub proof fn law_chains_are_complete(db: SemanticGroup, ty: TypeId, try_deref_mut: bool)
    ensures
        deref_steps(db, ty, try_deref_mut) matches Some(steps) ==> {
            &&& steps.len() == 0 <==> deref_step(db, ty, false) is None && !(try_deref_mut
                && deref_step(db, ty, true) is Some)
            &&& steps.len() > 0 ==> deref_step(db, steps.last().target_ty, false) is None
        },
{
    if let Some(first) = first_deref(db, ty, try_deref_mut) {
        let n = db.interned@.types.len();
        if let Some(rest) = deref_rest(db, first.target_ty, n) {
            lemma_rest_is_complete(db, first.target_ty, n, rest);
            let steps = seq![first] + later_derefs(rest);
            if rest.len() > 0 {
                assert(steps.last() == later_derefs(rest).last());
            } else {
                assert(steps.last() == first);
            }
        }
    }
}

proof fn lemma_rest_is_complete(
    db: SemanticGroup,
    ty: TypeId,
    fuel: nat,
    rest: Seq<(ImplId, TypeId)>,
)
    requires
        deref_rest(db, ty, fuel) == Some(rest),
    ensures
        deref_step(
            db,
            if rest.len() > 0 {
                rest.last().1
            } else {
                ty
            },
            false,
        ) is None,
    decreases fuel,
{
    if let Some(step) = deref_step(db, ty, false) {
        let later = deref_rest(db, step.1, (fuel - 1) as nat)->0;
        lemma_rest_is_complete(db, step.1, (fuel - 1) as nat, later);
        assert(rest =~= seq![step] + later);
        if later.len() > 0 {
            assert(rest.last() == later.last());
        }
    }
}

/// Dereferences are told of in one way only, and that stays as more values are interned.
pub proof fn law_dereferences_are_told_in_one_way(
    before: SemanticGroup,
    after: SemanticGroup,
    steps: Seq<DerefStep>,
    told: Seq<DerefInfo>,
    told_later: Seq<DerefInfo>,
)
    requires
        after.wf(),
        after.grown_from(before),
        tells_derefs(before, told, steps),
        tells_derefs(after, told_later, steps),
    ensures
        told == told_later,
{
    assert forall|i: int| 0 <= i < told.len() implies told[i] == told_later[i] by {
        let a = told[i].function_id;
        let b = told_later[i].function_id;
        assert(before.interned@.functions[a.0 as int] == after.interned@.functions[a.0 as int]);
        assert(after.interned@.functions[a.0 as int] == after.interned@.functions[b.0 as int]);
        assert(a.0 == b.0);
    }
    assert(told =~= told_later);
}

/// Whether an impl for a dereference is looked up in a context: in the module of the trait and in
/// the scope of the type, in their order, with no generic parameters.
pub open spec fn is_looked_up_in(
    db: SemanticGroup,
    trait_id: TraitId,
    ty: TypeId,
    context: ContextView,
) -> bool {
    &&& context.generic_params.len() == 0
    &&& sorted_scopes(context.modules_and_impls)
    &&& forall|x: ImplOrModuleById| #[trigger]
        context.modules_and_impls.contains(x) <==> x == ImplOrModuleById::Module(
            trait_id.module_file_id.0,
        ) || lookup(db.facts.type_scopes@, ty) == Some(x)
}

/// A type is dereferenced by the impl that inference is recorded to find for it, of the trait that
/// dereferences go through, and not at all where it finds none.
pub proof fn law_types_are_dereferenced_by_the_impl_for_them(
    db: SemanticGroup,
    ty: TypeId,
    is_mut_deref: bool,
    t: ConcreteTraitId,
    context: ContextView,
)
    requires
        db.wf(),
        t.0 < db.interned@.concrete_traits.len(),
        db.interned@.concrete_traits[t.0 as int].generic_args == seq![GenericArgumentId::Type(ty)],
        db.interned@.concrete_traits[t.0 as int].trait_id == if is_mut_deref {
            db.facts.core.deref_mut_trt
        } else {
            db.facts.core.deref_trt
        },
        is_looked_up_in(db, db.interned@.concrete_traits[t.0 as int].trait_id, ty, context),
    ensures
        match lookup(db.facts.impl_answers@, (context, t)) {
            Some(Ok(imp)) => deref_step(db, ty, is_mut_deref) matches Some((i, _)) && i == imp,
            _ => deref_step(db, ty, is_mut_deref) is None,
        },
{
    let trait_id = db.interned@.concrete_traits[t.0 as int].trait_id;
    let long = type_trait(trait_id, ty);
    assert(db.interned@.concrete_traits[t.0 as int] == long);
    assert(is_trait_id(db.interned@.concrete_traits, long, t));
    let id = db.type_trait_id(trait_id, ty);
    assert(db.interned@.concrete_traits[id.0 as int] == db.interned@.concrete_traits[t.0 as int]);
    assert(id.0 == t.0);
    let own = ImplOrModuleById::Module(trait_id.module_file_id.0);
    let made = deref_context(db, trait_id, ty);
    match lookup(db.facts.type_scopes@, ty) {
        Some(scope) => {
            law_scope_order(own, scope, own);
            let both = two_scopes(own, scope);
            assert(sorted_scopes(both));
            assert forall|x: ImplOrModuleById| both.contains(x) <==> x == own || x == scope by {
                if own == scope || !own.before(scope) {
                    assert(both.last() == own);
                    assert(both[0] == scope);
                } else {
                    assert(both[0] == own && both[1] == scope);
                }
            }
            law_sorted_scopes_unique(context.modules_and_impls, both);
        },
        None => {
            let one = seq![own];
            assert(one[0] == own);
            law_sorted_scopes_unique(context.modules_and_impls, one);
        },
    }
    assert(context.generic_params =~= made.generic_params);
    assert(context == made);
}

/// Nothing dereferences a type for which no impl is recorded.
pub proof fn law_types_without_an_impl_are_not_dereferenced(
    db: SemanticGroup,
    ty: TypeId,
    is_mut_deref: bool,
)
    requires
        forall|context: ContextView, t: ConcreteTraitId|
            (#[trigger] lookup(db.facts.impl_answers@, (context, t))) matches Some(Ok(_)) ==> (t.0
                < db.interned@.concrete_traits.len()
                && db.interned@.concrete_traits[t.0 as int].trait_id != if is_mut_deref {
                db.facts.core.deref_mut_trt
            } else {
                db.facts.core.deref_trt
            }),
    ensures
        deref_step(db, ty, is_mut_deref) is None,
{
    let trait_id = deref_trait_and_method(db.facts.core, is_mut_deref).0;
    if let Some(imp) = deref_impl(db, ty, is_mut_deref) {
        let t = db.type_trait_id(trait_id, ty);
        let context = deref_context(db, trait_id, ty);
        assert(lookup(db.facts.impl_answers@, (context, t)) matches Some(Ok(_)));
    }
}

/// The type that a dereference leads to is what the arguments of the impl make of the one type that
/// its definition has.
pub proof fn law_dereferences_lead_to_the_type_of_the_impl(
    db: SemanticGroup,
    ty: TypeId,
    is_mut_deref: bool,
    imp: ImplId,
    target: TypeId,
    c: ConcreteImplId,
    written: TypeId,
)
    requires
        deref_step(db, ty, is_mut_deref) == Some((imp, target)),
        deref_ready(db, imp),
        db.interned@.impls[imp.0 as int] == ImplLongId::Concrete(c),
        db.spec_impl_substitution(imp, c) is Ok,
        db.spec_definition(db.interned@.concrete_impls[c.0 as int].impl_def_id) matches Ok(d)
            && exists|id: ImplTypeDefId|
            #![trigger lookup(db.facts.type_items@, id)]
            has_key(d.types, id) && (lookup(db.facts.type_items@, id) matches Some(f)
                && f.generics is Ok && (if db.facts.cycles.type_items@.contains(id) {
                f.alias_in_cycle
            } else {
                f.alias
            } matches Ok(alias) && alias.resolved_type == Ok::<_, DiagnosticAdded>(written))),
    ensures
        made_of(
            db.facts.substituted_types@,
            (db.spec_impl_substitution(imp, c)->Ok_0, written),
            written,
        ) == Ok::<_, DiagnosticAdded>(target),
{
    let impl_def_id = db.interned@.concrete_impls[c.0 as int].impl_def_id;
    let d = db.spec_definition(impl_def_id)->Ok_0;
    let id = choose|id: ImplTypeDefId|
        #![trigger lookup(db.facts.type_items@, id)]
        has_key(d.types, id) && (lookup(db.facts.type_items@, id) matches Some(f)
            && f.generics is Ok && (if db.facts.cycles.type_items@.contains(id) {
            f.alias_in_cycle
        } else {
            f.alias
        } matches Ok(alias) && alias.resolved_type == Ok::<_, DiagnosticAdded>(written)));
    assert(d.types[0].0 == id);
    lemma_definition_items_are_own(db, impl_def_id);
    assert(id.impl_def_id == impl_def_id);
    assert(single_type(db, impl_def_id) == written);
}

/// A chain dereferences step by step: its first step is mutable exactly where that is tried and
/// possible, the others are not, and each is the dereference of the type that the one before it led
/// to.
pub proof fn law_chains_dereference_step_by_step(db: SemanticGroup, ty: TypeId, try_deref_mut: bool)
    ensures
        deref_steps(db, ty, try_deref_mut) matches Some(steps) ==> {
            let mutably = try_deref_mut && deref_step(db, ty, true) is Some;
            &&& steps.len() == 0 <==> !mutably && deref_step(db, ty, false) is None
            &&& steps.len() > 0 ==> {
                &&& steps[0].self_mutability == if mutably {
                    Mutability::Reference
                } else {
                    Mutability::Immutable
                }
                &&& deref_step(db, ty, mutably) == Some((steps[0].imp, steps[0].target_ty))
                &&& deref_step(db, steps.last().target_ty, false) is None
            }
            &&& forall|i: int|
                0 < i < steps.len() ==> (#[trigger] steps[i]).self_mutability
                    == Mutability::Immutable && deref_step(db, steps[i - 1].target_ty, false)
                    == Some((steps[i].imp, steps[i].target_ty))
        },
{
    law_chains_are_complete(db, ty, try_deref_mut);
    if let Some(first) = first_deref(db, ty, try_deref_mut) {
        let n = db.interned@.types.len();
        if let Some(rest) = deref_rest(db, first.target_ty, n) {
            let steps = seq![first] + later_derefs(rest);
            lemma_rest_steps(db, first.target_ty, n, rest);
            assert forall|i: int| 0 < i < steps.len() implies (#[trigger] steps[i]).self_mutability
                == Mutability::Immutable && deref_step(db, steps[i - 1].target_ty, false) == Some(
                (steps[i].imp, steps[i].target_ty),
            ) by {
                assert(steps[i] == later_derefs(rest)[i - 1]);
                assert(rest[i - 1] == (steps[i].imp, steps[i].target_ty));
                if i > 1 {
                    assert(steps[i - 1] == later_derefs(rest)[i - 2]);
                }
            }
        }
    }
}

proof fn lemma_rest_steps(
    db: SemanticGroup,
    ty: TypeId,
    fuel: nat,
    rest: Seq<(ImplId, TypeId)>,
)
    requires
        deref_rest(db, ty, fuel) == Some(rest),
    ensures
        forall|i: int|
            0 <= i < rest.len() ==> deref_step(
                db,
                if i == 0 {
                    ty
                } else {
                    rest[i - 1].1
                },
                false,
            ) == Some(#[trigger] rest[i]),
    decreases fuel,
{
    if let Some(step) = deref_step(db, ty, false) {
        let later = deref_rest(db, step.1, (fuel - 1) as nat)->0;
        lemma_rest_steps(db, step.1, (fuel - 1) as nat, later);
        assert forall|i: int| 0 <= i < rest.len() implies deref_step(
            db,
            if i == 0 {
                ty
            } else {
                rest[i - 1].1
            },
            false,
        ) == Some(#[trigger] rest[i]) by {
            if i > 0 {
                assert(rest[i] == later[i - 1]);
                if i > 1 {
                    assert(rest[i - 1] == later[i - 2]);
                }
            }
        }
    }
}

/// There is no chain exactly where the dereferences do not end: after any number of them there is
/// one more.
pub proof fn law_chains_are_missing_where_they_do_not_end(
    db: SemanticGroup,
    ty: TypeId,
    try_deref_mut: bool,
    first: DerefStep,
)
    requires
        db.wf(),
        chain_ready(db, ty, try_deref_mut),
        first_deref(db, ty, try_deref_mut) == Some(first),
    ensures
        deref_steps(db, ty, try_deref_mut) is None <==> forall|k: nat|
            (#[trigger] deref_walk(db, first.target_ty, k)) is Some,
{
    let n = db.interned@.types.len();
    let t = first.target_ty;
    lemma_deref_target(db, ty, first.self_mutability == Mutability::Reference);
    if deref_rest(db, t, n) is None {
        assert forall|k: nat| (#[trigger] deref_walk(db, t, k)) is Some by {
            law_long_deref_chains_are_endless(db, t, k);
            lemma_rest_is_walk(db, t, k);
            lemma_walk_on(db, t, k);
        }
    } else {
        lemma_rest_is_walk(db, t, n);
        let k = choose|k: nat|
            k <= n && #[trigger] deref_walk(db, t, k) is Some && deref_step(
                db,
                deref_walk(db, t, k)->0,
                false,
            ) is None;
        assert(deref_walk(db, t, k + 1) is None);
    }
}

/// The functions that a chain tells of are those of the impls: the mutable one where the step is
/// mutable, and the other one where it is not.
pub proof fn law_chains_tell_of_the_functions_of_the_impls(
    db: SemanticGroup,
    derefs: Seq<DerefInfo>,
    steps: Seq<DerefStep>,
)
    requires
        tells_derefs(db, derefs, steps),
    ensures
        derefs.len() == steps.len(),
        forall|i: int|
            0 <= i < derefs.len() ==> {
                let function = db.interned@.functions[(#[trigger] derefs[i]).function_id.0 as int];
                &&& derefs[i].target_ty == steps[i].target_ty
                &&& derefs[i].self_mutability == steps[i].self_mutability
                &&& derefs[i].function_id.0 < db.interned@.functions.len()
                &&& function.generic_args.len() == 0
                &&& function.generic_function matches GenericFunctionId::Impl(f) && f.impl_id
                    == steps[i].imp && f.function == if steps[i].self_mutability
                    == Mutability::Reference {
                    db.facts.core.deref_mut_fn
                } else {
                    db.facts.core.deref_fn
                }
            },
{
}

} // verus!
