//! The impls that a lookup finds before inference.

use vstd::prelude::*;
use vstd::string::StringExecFns;

use crate::collections::{
    has_key, law_set_extend, lemma_concat_members, lemma_set_extend_concat, lookup, set_extend,
    views, OrderedHashSet,
};
use crate::context::{extending_scope, ContextView, ImplLookupContext, ImplOrModuleById};
use crate::db::SemanticGroup;
use crate::declaration::{impl_def_concrete_trait, impl_def_trait};
use crate::diagnostics::{skip_diagnostic, DiagnosticAdded, Maybe};
use crate::facts::{ModuleItemId, ModuleItemInfo, ResolvedGenericItem, VisibilityQuestion};
use crate::ids::{
    ConcreteTraitId, GenericArgumentHead, GenericKind, GenericParamId, ImplAliasId, ImplDefId,
    ImplId, ModuleId, SmolStrId, TraitId, TraitImplId, UninferredGeneratedImplId,
};
use crate::impls::{
    impl_concrete_trait, impl_debug_text, impl_impl_concrete_trait, impl_impl_debug_text,
    impl_impl_trait, impl_trait, text_of,
};
use crate::model::{GenericParam, ImplImplId, UninferredImpl};
use crate::text::{quoted, quoted_text};

verus! {

// --- Candidates ---

impl UninferredGeneratedImplId {
    /// The trait that a generated impl implements.
    pub fn concrete_trait(self, db: &SemanticGroup) -> (res: ConcreteTraitId)
        requires
            db.has_uninferred_generated(self),
        ensures
            res == db.spec_uninferred_generated_long(self).concrete_trait,
    {
        db.lookup_intern_uninferred_generated_impl(self).concrete_trait
    }

    /// The trait that a generated impl implements, without its arguments.
    pub fn trait_id(&self, db: &SemanticGroup) -> (res: TraitId)
        requires
            db.wf(),
            db.has_uninferred_generated(*self),
        ensures
            res == db.spec_trait_long(
                db.spec_uninferred_generated_long(*self).concrete_trait,
            ).trait_id,
    {
        proof {
            assert(db.sizes().has_uninferred_parts(
                db.interned@.uninferred_generated_impls[self.0 as int],
            ));
        }
        db.trait_long(self.concrete_trait(db)).trait_id
    }
}

impl SemanticGroup {
    /// Whether a candidate is one: its values are interned, and a parameter is an impl.
    pub open spec fn has_candidate(self, imp: UninferredImpl) -> bool {
        match imp {
            UninferredImpl::Def(_) => true,
            UninferredImpl::ImplAlias(_) => true,
            UninferredImpl::GenericParam(param) => param.kind == GenericKind::Impl,
            UninferredImpl::ImplImpl(id) => self.has_impl(id.impl_id),
            UninferredImpl::GeneratedImpl(id) => self.has_uninferred_generated(id),
        }
    }

    /// The impl that an alias stands for.
    pub open spec fn spec_alias_impl(self, id: ImplAliasId) -> Maybe<ImplId> {
        match lookup(self.facts.impl_aliases@, id) {
            Some(f) => f.resolved_impl,
            None => Err(DiagnosticAdded),
        }
    }

    pub fn impl_alias_resolved_impl(&self, id: ImplAliasId) -> (res: Maybe<ImplId>)
        requires
            self.wf(),
        ensures
            res == self.spec_alias_impl(id),
            self.sizes().has_maybe_impl(res),
    {
        proof {
            reveal(crate::db::SemanticFacts::valid);
        }
        match self.facts.impl_aliases.get(&id) {
            Some(f) => f.resolved_impl,
            None => Err(skip_diagnostic()),
        }
    }

    /// The impl definition that an alias stands for.
    pub open spec fn spec_alias_def(self, id: ImplAliasId) -> Maybe<ImplDefId> {
        match lookup(self.facts.impl_aliases@, id) {
            Some(f) => f.impl_def,
            None => Err(DiagnosticAdded),
        }
    }

    pub fn impl_alias_impl_def(&self, id: ImplAliasId) -> (res: Maybe<ImplDefId>)
        ensures
            res == self.spec_alias_def(id),
    {
        match self.facts.impl_aliases.get(&id) {
            Some(f) => f.impl_def,
            None => Err(skip_diagnostic()),
        }
    }

    /// The trait without its arguments, where a trait is resolved.
    pub open spec fn spec_trait_id_of(self, concrete_trait: Maybe<ConcreteTraitId>) -> Maybe<
        TraitId,
    > {
        match concrete_trait {
            Ok(t) => Ok(self.spec_trait_long(t).trait_id),
            Err(e) => Err(e),
        }
    }

    fn trait_id_of(&self, concrete_trait: Maybe<ConcreteTraitId>) -> (res: Maybe<TraitId>)
        requires
            self.sizes().has_maybe_trait(concrete_trait),
        ensures
            res == self.spec_trait_id_of(concrete_trait),
    {
        match concrete_trait {
            Ok(t) => Ok(self.trait_long(t).trait_id),
            Err(e) => Err(e),
        }
    }
}

/// The trait that a candidate implements.
pub open spec fn candidate_trait(db: SemanticGroup, imp: UninferredImpl) -> Maybe<ConcreteTraitId> {
    match imp {
        UninferredImpl::Def(id) => db.spec_impl_def_concrete_trait(id),
        UninferredImpl::ImplAlias(id) => match db.spec_alias_impl(id) {
            Ok(imp) => impl_trait(db, imp),
            Err(e) => Err(e),
        },
        UninferredImpl::GenericParam(param) => db.spec_param_trait(param),
        UninferredImpl::ImplImpl(id) => impl_impl_trait(db, id),
        UninferredImpl::GeneratedImpl(id) => Ok(
            db.spec_uninferred_generated_long(id).concrete_trait,
        ),
    }
}

/// The trait that a candidate implements, without its arguments: for a definition that which its
/// path names, which takes less to find out.
pub open spec fn candidate_trait_id(db: SemanticGroup, imp: UninferredImpl) -> Maybe<TraitId> {
    match imp {
        UninferredImpl::Def(id) => db.spec_impl_def_trait(id),
        UninferredImpl::ImplAlias(id) => match db.spec_alias_def(id) {
            Ok(def) => db.spec_impl_def_trait(def),
            Err(e) => Err(e),
        },
        _ => db.spec_trait_id_of(candidate_trait(db, imp)),
    }
}

/// The scope that a candidate stands in.
pub open spec fn candidate_scope(db: SemanticGroup, imp: UninferredImpl) -> ImplOrModuleById {
    match imp {
        UninferredImpl::Def(id) => ImplOrModuleById::Module(id.module_file_id.0),
        UninferredImpl::ImplAlias(id) => ImplOrModuleById::Module(id.module_file_id.0),
        UninferredImpl::GenericParam(param) => ImplOrModuleById::Module(param.module_file_id.0),
        UninferredImpl::ImplImpl(id) => ImplOrModuleById::Impl(id.impl_id),
        UninferredImpl::GeneratedImpl(id) => ImplOrModuleById::Module(
            db.spec_trait_long(
                db.spec_uninferred_generated_long(id).concrete_trait,
            ).trait_id.module_file_id.0,
        ),
    }
}

impl UninferredImpl {
    /// The trait that the candidate implements.
    pub fn concrete_trait(&self, db: &SemanticGroup) -> (res: Maybe<ConcreteTraitId>)
        requires
            db.wf(),
            db.has_candidate(*self),
        ensures
            res == candidate_trait(*db, *self),
            db.sizes().has_maybe_trait(res),
    {
        match *self {
            UninferredImpl::Def(impl_def_id) => impl_def_concrete_trait(db, impl_def_id),
            UninferredImpl::ImplAlias(impl_alias_id) => match db.impl_alias_resolved_impl(
                impl_alias_id,
            ) {
                Ok(impl_id) => impl_concrete_trait(db, impl_id),
                Err(e) => Err(e),
            },
            UninferredImpl::GenericParam(param) => db.param_trait(param),
            UninferredImpl::ImplImpl(impl_impl_id) => impl_impl_concrete_trait(db, impl_impl_id),
            UninferredImpl::GeneratedImpl(generated_impl) => {
                proof {
                    assert(db.sizes().has_uninferred_parts(
                        db.interned@.uninferred_generated_impls[generated_impl.0 as int],
                    ));
                }
                Ok(generated_impl.concrete_trait(db))
            },
        }
    }

    /// The trait that the candidate implements, without its arguments.
    pub fn trait_id(&self, db: &SemanticGroup) -> (res: Maybe<TraitId>)
        requires
            db.wf(),
            db.has_candidate(*self),
        ensures
            res == candidate_trait_id(*db, *self),
    {
        match *self {
            UninferredImpl::Def(impl_def_id) => impl_def_trait(db, impl_def_id),
            UninferredImpl::ImplAlias(impl_alias_id) => match db.impl_alias_impl_def(
                impl_alias_id,
            ) {
                Ok(impl_def_id) => impl_def_trait(db, impl_def_id),
                Err(e) => Err(e),
            },
            _ => db.trait_id_of(self.concrete_trait(db)),
        }
    }

    /// The scope that the candidate stands in.
    pub fn lookup_scope(&self, db: &SemanticGroup) -> (res: ImplOrModuleById)
        requires
            db.wf(),
            db.has_candidate(*self),
        ensures
            res == candidate_scope(*db, *self),
    {
        match *self {
            UninferredImpl::Def(id) => ImplOrModuleById::Module(id.module_file_id.0),
            UninferredImpl::ImplAlias(id) => ImplOrModuleById::Module(id.module_file_id.0),
            UninferredImpl::GenericParam(param) => {
                ImplOrModuleById::Module(param.module_file_id.0)
            },
            UninferredImpl::ImplImpl(id) => ImplOrModuleById::Impl(id.impl_id),
            UninferredImpl::GeneratedImpl(id) => {
                ImplOrModuleById::Module(id.trait_id(db).module_file_id.0)
            },
        }
    }
}

/// A candidate as it is printed.
pub open spec fn candidate_text(db: SemanticGroup, imp: UninferredImpl) -> Seq<char> {
    match imp {
        UninferredImpl::Def(id) => quoted(db.spec_impl_def_full_path(id)),
        UninferredImpl::ImplAlias(id) => quoted(db.spec_alias_full_path(id)),
        UninferredImpl::GenericParam(param) => "generic param "@ + match param.name {
            Some(name) => db.spec_text(name),
            None => "_"@,
        },
        UninferredImpl::ImplImpl(id) => impl_impl_debug_text(db, id),
        UninferredImpl::GeneratedImpl(id) => uninferred_generated_text(db, id),
    }
}

/// A generated impl as it is printed before inference.
pub open spec fn uninferred_generated_text(db: SemanticGroup, id: UninferredGeneratedImplId) -> Seq<
    char,
> {
    "Generated "@ + db.spec_trait_text(db.spec_uninferred_generated_long(id).concrete_trait)
}

impl SemanticGroup {
    /// The path of an impl alias.
    pub open spec fn spec_alias_full_path(self, id: ImplAliasId) -> Seq<char> {
        match lookup(self.facts.impl_aliases@, id) {
            Some(f) => f.full_path@,
            None => seq![],
        }
    }

    fn alias_full_path(&self, id: ImplAliasId) -> (res: String)
        ensures
            res@ == self.spec_alias_full_path(id),
    {
        match self.facts.impl_aliases.get(&id) {
            Some(f) => f.full_path.clone(),
            None => String::new(),
        }
    }
}

impl UninferredGeneratedImplId {
    /// The generated impl as it is printed.
    pub fn debug(&self, db: &SemanticGroup) -> (res: String)
        requires
            db.has_uninferred_generated(*self),
        ensures
            res@ == uninferred_generated_text(*db, *self),
    {
        let mut res = String::from_str("Generated ");
        res.append(db.trait_text(self.concrete_trait(db)).as_str());
        res
    }
}

impl UninferredImpl {
    /// The candidate as it is printed.
    pub fn debug(&self, db: &SemanticGroup) -> (res: String)
        requires
            db.wf(),
            db.has_candidate(*self),
        ensures
            res@ == candidate_text(*db, *self),
    {
        match *self {
            UninferredImpl::Def(id) => quoted_text(&db.impl_def_full_path(id)),
            UninferredImpl::ImplAlias(id) => quoted_text(&db.alias_full_path(id)),
            UninferredImpl::GenericParam(param) => {
                let mut res = String::from_str("generic param ");
                match param.name {
                    Some(name) => res.append(db.text(name).as_str()),
                    None => res.append("_"),
                }
                res
            },
            UninferredImpl::ImplImpl(id) => id.full_path(db),
            UninferredImpl::GeneratedImpl(id) => id.debug(db),
        }
    }
}

// --- Filters ---

/// A lookup filter on generic arguments that is not based on current inference state.
#[derive(Clone, Copy, PartialEq, Eq, Structural, Debug)]
pub enum GenericsHeadFilter {
    /// No filter is applied. When nothing is known about the generics, this will lead to a
    /// wider search.
    NoFilter,
    /// Generics exists and the first generic parameter has a filter.
    /// This is usually enough to considerably reduce the number of searched items.
    FirstGenericFilter(GenericArgumentHead),
    /// Generics must not exist.
    NoGenerics,
}

/// A filter for trait lookup that is not based on current inference state.
#[derive(Clone, Copy, PartialEq, Eq, Structural, Debug)]
pub struct TraitFilter {
    pub trait_id: TraitId,
    /// The filter on the generic arguments.
    pub generics_filter: GenericsHeadFilter,
}

/// Whether a trait passes a filter: it is the trait, and its first argument has the head asked
/// for. An argument without a head may still turn out to have it.
pub open spec fn trait_fits(db: SemanticGroup, id: ConcreteTraitId, filter: TraitFilter) -> bool {
    let long = db.spec_trait_long(id);
    &&& long.trait_id == filter.trait_id
    &&& match filter.generics_filter {
        GenericsHeadFilter::NoFilter => true,
        GenericsHeadFilter::FirstGenericFilter(head) => long.generic_args.len() > 0 && (
        db.spec_head(long.generic_args[0]) matches Some(h) ==> h == head),
        GenericsHeadFilter::NoGenerics => long.generic_args.len() == 0,
    }
}

/// Whether a candidate passes a filter.
pub open spec fn candidate_fits(db: SemanticGroup, imp: UninferredImpl, filter: TraitFilter) -> bool {
    &&& candidate_trait_id(db, imp) == Ok::<_, DiagnosticAdded>(filter.trait_id)
    &&& candidate_trait(db, imp) matches Ok(t) && trait_fits(db, t, filter)
}

/// Checks whether a trait passes a [TraitFilter].
pub fn concrete_trait_fits_trait_filter(
    db: &SemanticGroup,
    concrete_trait_id: ConcreteTraitId,
    trait_filter: &TraitFilter,
) -> (res: Maybe<bool>)
    requires
        db.has_trait(concrete_trait_id),
    ensures
        res == Ok::<_, DiagnosticAdded>(trait_fits(*db, concrete_trait_id, *trait_filter)),
{
    let long = db.trait_long(concrete_trait_id);
    if trait_filter.trait_id != long.trait_id {
        return Ok(false);
    }
    Ok(
        match trait_filter.generics_filter {
            GenericsHeadFilter::NoFilter => true,
            GenericsHeadFilter::FirstGenericFilter(constraint_head) => {
                if long.generic_args.len() == 0 {
                    return Ok(false);
                }
                match db.generic_arg_head(long.generic_args[0]) {
                    Some(first_generic_head) => first_generic_head == constraint_head,
                    None => true,
                }
            },
            GenericsHeadFilter::NoGenerics => long.generic_args.len() == 0,
        },
    )
}

/// Checks whether a candidate passes a [TraitFilter].
fn check_candidate(db: &SemanticGroup, imp: UninferredImpl, trait_filter: &TraitFilter) -> (res:
    bool)
    requires
        db.wf(),
        db.has_candidate(imp),
    ensures
        res == candidate_fits(*db, imp, *trait_filter),
{
    let trait_id = match imp.trait_id(db) {
        Ok(trait_id) => trait_id,
        Err(_) => return false,
    };
    if trait_id != trait_filter.trait_id {
        return false;
    }
    match imp.concrete_trait(db) {
        Ok(t) => match concrete_trait_fits_trait_filter(db, t, trait_filter) {
            Ok(fits) => fits,
            Err(_) => false,
        },
        Err(_) => false,
    }
}

/// The candidates that pass a filter.
pub open spec fn fitting(
    db: SemanticGroup,
    impls: Seq<UninferredImpl>,
    filter: TraitFilter,
) -> Seq<UninferredImpl> {
    impls.filter(|imp: UninferredImpl| candidate_fits(db, imp, filter))
}

// --- Modules ---

/// The candidate that an item of a module is, where it is visible.
pub open spec fn item_candidate(
    db: SemanticGroup,
    user_module: ModuleId,
    containing_module: ModuleId,
    item: ModuleItemInfo,
) -> Option<UninferredImpl> {
    let question = VisibilityQuestion {
        visibility: item.visibility,
        containing_module,
        user_module,
    };
    if !db.facts.visible@.contains(question) {
        None
    } else {
        match item.item_id {
            ModuleItemId::Impl(id) => Some(UninferredImpl::Def(id)),
            ModuleItemId::ImplAlias(id) => Some(UninferredImpl::ImplAlias(id)),
            ModuleItemId::Use(id) => match db.spec_use_resolved_item(id) {
                Ok(ResolvedGenericItem::Impl(def)) => Some(UninferredImpl::Def(def)),
                Ok(ResolvedGenericItem::GenericImplAlias(alias)) => Some(
                    UninferredImpl::ImplAlias(alias),
                ),
                _ => None,
            },
            ModuleItemId::Other(_) => None,
        }
    }
}

/// The candidates among the items of a module that are visible from another one.
pub open spec fn module_candidates(
    db: SemanticGroup,
    user_module: ModuleId,
    containing_module: ModuleId,
) -> Maybe<Seq<UninferredImpl>> {
    match lookup(db.facts.modules@, containing_module) {
        Some(f) => match f.items {
            Ok(items) => Ok(
                items@.filter_map(
                    |item: ModuleItemInfo| item_candidate(db, user_module, containing_module, item),
                ),
            ),
            Err(e) => Err(e),
        },
        None => Err(DiagnosticAdded),
    }
}

/// The candidates of some modules, each seen from another; modules that are not known give none.
pub open spec fn star_candidates(db: SemanticGroup, modules: Seq<(ModuleId, ModuleId)>) -> Seq<
    UninferredImpl,
>
    decreases modules.len(),
{
    if modules.len() == 0 {
        seq![]
    } else {
        let (user_module, containing_module) = modules.last();
        star_candidates(db, modules.drop_last()) + match module_candidates(
            db,
            user_module,
            containing_module,
        ) {
            Ok(impls) => impls,
            Err(_) => seq![],
        }
    }
}

/// The candidates in a module that pass a filter: its own first, then those of the modules whose
/// items it takes in, each candidate once.
pub open spec fn module_filtered(db: SemanticGroup, module_id: ModuleId, filter: TraitFilter) -> Maybe<
    Seq<UninferredImpl>,
> {
    match module_candidates(db, module_id, module_id) {
        Ok(own) => Ok(
            fitting(
                db,
                set_extend(
                    Seq::empty(),
                    own + star_candidates(
                        db,
                        lookup(db.facts.modules@, module_id)->0.use_star_modules@,
                    ),
                ),
                filter,
            ),
        ),
        Err(e) => Err(e),
    }
}

/// Returns the uninferred impls in a module.
pub fn module_impl_ids(
    db: &SemanticGroup,
    user_module: ModuleId,
    containing_module: ModuleId,
) -> (res: Maybe<Vec<UninferredImpl>>)
    ensures
        match res {
            Ok(impls) => module_candidates(*db, user_module, containing_module) == Ok::<
                _,
                DiagnosticAdded,
            >(impls@),
            Err(_) => module_candidates(*db, user_module, containing_module) is Err,
        },
{
    let items = match db.facts.modules.get(&containing_module) {
        Some(f) => match &f.items {
            Ok(items) => items,
            Err(e) => return Err(*e),
        },
        None => return Err(skip_diagnostic()),
    };
    let mut uninferred_impls: Vec<UninferredImpl> = Vec::new();
    let ghost candidate = |item: ModuleItemInfo|
        item_candidate(*db, user_module, containing_module, item);
    let mut i: usize = 0;
    assert(items@.take(0).filter_map(candidate) =~= Seq::empty());
    while i < items.len()
        invariant
            i <= items.len(),
            candidate == (|item: ModuleItemInfo|
                item_candidate(*db, user_module, containing_module, item)),
            uninferred_impls@ == items@.take(i as int).filter_map(candidate),
        decreases items.len() - i,
    {
        let item = items[i];
        proof {
            items@.lemma_filter_map_take_succ(candidate, i as int);
        }
        let question = VisibilityQuestion {
            visibility: item.visibility,
            containing_module,
            user_module,
        };
        if db.facts.visible.contains(&question) {
            match item.item_id {
                ModuleItemId::Impl(impl_def_id) => {
                    uninferred_impls.push(UninferredImpl::Def(impl_def_id));
                },
                ModuleItemId::ImplAlias(impl_alias_id) => {
                    uninferred_impls.push(UninferredImpl::ImplAlias(impl_alias_id));
                },
                ModuleItemId::Use(use_id) => match db.use_resolved_item(use_id) {
                    Ok(ResolvedGenericItem::Impl(impl_def_id)) => {
                        uninferred_impls.push(UninferredImpl::Def(impl_def_id));
                    },
                    Ok(ResolvedGenericItem::GenericImplAlias(impl_alias_id)) => {
                        uninferred_impls.push(UninferredImpl::ImplAlias(impl_alias_id));
                    },
                    _ => {},
                },
                ModuleItemId::Other(_) => {},
            }
        }
        i += 1;
        assert(uninferred_impls@ =~= items@.take(i as int).filter_map(candidate));
    }
    assert(items@.take(items@.len() as int) =~= items@);
    Ok(uninferred_impls)
}

/// Whether some candidates are definitions and aliases.
spec fn plain(impls: Seq<UninferredImpl>) -> bool {
    forall|i: int|
        0 <= i < impls.len() ==> (#[trigger] impls[i] is Def || impls[i] is ImplAlias)
}

proof fn lemma_module_candidates_plain(
    db: SemanticGroup,
    user_module: ModuleId,
    containing_module: ModuleId,
)
    ensures
        module_candidates(db, user_module, containing_module) matches Ok(impls) ==> plain(impls),
{
    if let Ok(impls) = module_candidates(db, user_module, containing_module) {
        let items = lookup(db.facts.modules@, containing_module)->0.items->Ok_0@;
        let f = |item: ModuleItemInfo| item_candidate(db, user_module, containing_module, item);
        lemma_filter_map_plain(items, f);
    }
}

proof fn lemma_filter_map_plain(
    items: Seq<ModuleItemInfo>,
    f: spec_fn(ModuleItemInfo) -> Option<UninferredImpl>,
)
    requires
        forall|item: ModuleItemInfo| (#[trigger] f(item)) matches Some(imp) ==> imp is Def
            || imp is ImplAlias,
    ensures
        plain(items.filter_map(f)),
    decreases items.len(),
{
    reveal(Seq::filter_map);
    if items.len() > 0 {
        lemma_filter_map_plain(items.drop_last(), f);
        let last = f(items.last());
    }
}

proof fn lemma_star_plain(db: SemanticGroup, modules: Seq<(ModuleId, ModuleId)>)
    ensures
        plain(star_candidates(db, modules)),
    decreases modules.len(),
{
    if modules.len() > 0 {
        let (user_module, containing_module) = modules.last();
        lemma_star_plain(db, modules.drop_last());
        lemma_module_candidates_plain(db, user_module, containing_module);
    }
}

proof fn lemma_set_extend_plain(s: Seq<UninferredImpl>, t: Seq<UninferredImpl>)
    requires
        plain(s),
        plain(t),
    ensures
        plain(set_extend(s, t)),
    decreases t.len(),
{
    if t.len() > 0 {
        let init = t.drop_last();
        assert forall|i: int| 0 <= i < init.len() implies (#[trigger] init[i] is Def || init[i]
            is ImplAlias) by {
            assert(init[i] == t[i]);
        }
        lemma_set_extend_plain(s, init);
        assert(t[t.len() - 1] is Def || t[t.len() - 1] is ImplAlias);
    }
}

/// Keeps the candidates that pass a filter.
fn keep_fitting(
    db: &SemanticGroup,
    impls: &OrderedHashSet<UninferredImpl>,
    trait_filter: &TraitFilter,
) -> (res: Vec<UninferredImpl>)
    requires
        db.wf(),
        forall|i: int| 0 <= i < impls@.len() ==> db.has_candidate(#[trigger] impls@[i]),
    ensures
        res@ == fitting(*db, impls@, *trait_filter),
{
    let mut res: Vec<UninferredImpl> = Vec::new();
    let ghost keep = |imp: UninferredImpl| candidate_fits(*db, imp, *trait_filter);
    let count: usize = impls.len();
    let mut i: usize = 0;
    proof {
        reveal(Seq::filter);
        assert(impls@.take(0).filter(keep) =~= Seq::empty());
    }
    while i < count
        invariant
            db.wf(),
            forall|i: int| 0 <= i < impls@.len() ==> db.has_candidate(#[trigger] impls@[i]),
            keep == (|imp: UninferredImpl| candidate_fits(*db, imp, *trait_filter)),
            i <= count == impls@.len(),
            res@ == impls@.take(i as int).filter(keep),
        decreases count - i,
    {
        proof {
            reveal(Seq::filter);
            assert(impls@.take(i + 1).drop_last() =~= impls@.take(i as int));
        }
        let imp = *impls.at(i);
        assert(db.has_candidate(impls@[i as int]));
        if check_candidate(db, imp, trait_filter) {
            res.push(imp);
        }
        i += 1;
    }
    assert(impls@.take(count as int) =~= impls@);
    res
}

/// The candidates in a module that pass a filter.
pub fn module_impl_ids_for_trait_filter(
    db: &SemanticGroup,
    module_id: ModuleId,
    trait_filter: TraitFilter,
) -> (res: Maybe<Vec<UninferredImpl>>)
    requires
        db.wf(),
    ensures
        match res {
            Ok(impls) => module_filtered(*db, module_id, trait_filter) == Ok::<_, DiagnosticAdded>(
                impls@,
            ),
            Err(_) => module_filtered(*db, module_id, trait_filter) is Err,
        },
{
    // Get the impls first from the module, do not change this order.
    let own = match module_impl_ids(db, module_id, module_id) {
        Ok(own) => own,
        Err(e) => return Err(e),
    };
    let mut uninferred_impls: OrderedHashSet<UninferredImpl> = OrderedHashSet::new();
    assert(views(own@) =~= own@);
    uninferred_impls.extend(&own);
    let modules = match db.facts.modules.get(&module_id) {
        Some(f) => &f.use_star_modules,
        None => return Err(skip_diagnostic()),
    };
    let mut i: usize = 0;
    assert(modules@.take(0) =~= Seq::empty());
    assert(own@ + Seq::<UninferredImpl>::empty() =~= own@);
    while i < modules.len()
        invariant
            i <= modules.len(),
            uninferred_impls@ == set_extend(
                Seq::empty(),
                own@ + star_candidates(*db, modules@.take(i as int)),
            ),
        decreases modules.len() - i,
    {
        let ghost so_far = star_candidates(*db, modules@.take(i as int));
        assert(modules@.take(i + 1).drop_last() =~= modules@.take(i as int));
        let (user_module, containing_module) = modules[i];
        if let Ok(impls) = module_impl_ids(db, user_module, containing_module) {
            assert(views(impls@) =~= impls@);
            uninferred_impls.extend(&impls);
            proof {
                lemma_set_extend_concat(Seq::empty(), own@ + so_far, impls@);
                assert(own@ + so_far + impls@ =~= own@ + (so_far + impls@));
            }
        } else {
            assert(so_far + Seq::<UninferredImpl>::empty() =~= so_far);
        }
        i += 1;
    }
    assert(modules@.take(modules@.len() as int) =~= modules@);
    proof {
        lemma_module_candidates_plain(*db, module_id, module_id);
        lemma_star_plain(*db, modules@);
        let all = own@ + star_candidates(*db, modules@);
        assert(plain(all));
        lemma_set_extend_plain(Seq::empty(), all);
        assert forall|i: int| 0 <= i < uninferred_impls@.len() implies db.has_candidate(
            #[trigger] uninferred_impls@[i],
        ) by {
            assert(uninferred_impls@[i] is Def || uninferred_impls@[i] is ImplAlias);
        }
    }
    Ok(keep_fitting(db, &uninferred_impls, &trait_filter))
}

/// The candidates in a module where looking for them depends on itself.
pub fn module_impl_ids_for_trait_filter_cycle(
    _module_id: ModuleId,
    _trait_filter: TraitFilter,
) -> (res: Maybe<Vec<UninferredImpl>>)
    ensures
        res is Err,
{
    Err(skip_diagnostic())
}

// --- Impls ---

/// The impl items of an impl, as candidates.
pub open spec fn impl_candidates(impl_id: ImplId, trait_impls: Seq<(SmolStrId, TraitImplId)>) -> Seq<
    UninferredImpl,
> {
    Seq::new(
        trait_impls.len(),
        |i: int|
            UninferredImpl::ImplImpl(ImplImplId { impl_id, trait_impl_id: trait_impls[i].1 }),
    )
}

/// The trait impls that an impl has items for.
pub open spec fn impls_of_trait(db: SemanticGroup, impl_id: ImplId) -> Maybe<
    Seq<(SmolStrId, TraitImplId)>,
> {
    match impl_trait(db, impl_id) {
        Ok(t) => db.spec_trait_impls(db.spec_trait_long(t).trait_id),
        Err(e) => Err(e),
    }
}

/// The impl items of an impl that pass a filter.
pub open spec fn impl_filtered(db: SemanticGroup, impl_id: ImplId, filter: TraitFilter) -> Maybe<
    Seq<UninferredImpl>,
> {
    match impls_of_trait(db, impl_id) {
        Ok(trait_impls) => Ok(fitting(db, impl_candidates(impl_id, trait_impls), filter)),
        Err(e) => Err(e),
    }
}

/// Whether the trait impls of the trait of an impl belong to the trait that its path names.
pub open spec fn impl_items_belong(db: SemanticGroup, impl_id: ImplId) -> bool {
    impls_of_trait(db, impl_id) matches Ok(trait_impls) ==> forall|i: int|
        0 <= i < trait_impls.len() ==> ImplImplId::belongs(
            db,
            impl_id,
            (#[trigger] trait_impls[i]).1,
        )
}

/// The impl items of an impl that pass a filter.
pub fn impl_impl_ids_for_trait_filter(
    db: &SemanticGroup,
    impl_id: ImplId,
    trait_filter: TraitFilter,
) -> (res: Maybe<Vec<UninferredImpl>>)
    requires
        db.wf(),
        db.has_impl(impl_id),
        impl_items_belong(*db, impl_id),
    ensures
        match res {
            Ok(impls) => impl_filtered(*db, impl_id, trait_filter) == Ok::<_, DiagnosticAdded>(
                impls@,
            ),
            Err(_) => impl_filtered(*db, impl_id, trait_filter) is Err,
        },
{
    let concrete_trait = match impl_concrete_trait(db, impl_id) {
        Ok(concrete_trait) => concrete_trait,
        Err(e) => return Err(e),
    };
    let trait_impls = match db.trait_impls(db.trait_long(concrete_trait).trait_id) {
        Ok(trait_impls) => trait_impls,
        Err(e) => return Err(e),
    };
    let mut res: Vec<UninferredImpl> = Vec::new();
    let ghost candidates = impl_candidates(impl_id, trait_impls@);
    let ghost keep = |imp: UninferredImpl| candidate_fits(*db, imp, trait_filter);
    let count: usize = trait_impls.len();
    let mut i: usize = 0;
    proof {
        reveal(Seq::filter);
        assert(candidates.take(0).filter(keep) =~= Seq::empty());
    }
    while i < count
        invariant
            db.wf(),
            db.has_impl(impl_id),
            impl_items_belong(*db, impl_id),
            impls_of_trait(*db, impl_id) == Ok::<_, DiagnosticAdded>(trait_impls@),
            candidates == impl_candidates(impl_id, trait_impls@),
            keep == (|imp: UninferredImpl| candidate_fits(*db, imp, trait_filter)),
            i <= count == trait_impls@.len(),
            res@ == candidates.take(i as int).filter(keep),
        decreases count - i,
    {
        proof {
            reveal(Seq::filter);
            assert(candidates.take(i + 1).drop_last() =~= candidates.take(i as int));
        }
        let (_, trait_impl_id) = trait_impls.entry_at(i);
        assert(impls_of_trait(*db, impl_id)->Ok_0[i as int] == trait_impls@[i as int]);
        assert(ImplImplId::belongs(*db, impl_id, trait_impls@[i as int].1));
        assert(*trait_impl_id == trait_impls@[i as int].1);
        let imp = UninferredImpl::ImplImpl(ImplImplId::new(impl_id, *trait_impl_id, db));
        assert(imp == candidates[i as int]);
        if check_candidate(db, imp, &trait_filter) {
            res.push(imp);
        }
        i += 1;
    }
    assert(candidates.take(count as int) =~= candidates);
    Ok(res)
}

/// The impl items of an impl where looking for them depends on itself.
pub fn impl_impl_ids_for_trait_filter_cycle(_imp: ImplId, _trait_filter: TraitFilter) -> (res:
    Maybe<Vec<UninferredImpl>>)
    ensures
        res is Err,
{
    Err(skip_diagnostic())
}

// --- Lookup contexts ---

/// Whether a generic parameter is a candidate that passes a filter.
pub open spec fn param_fits(db: SemanticGroup, param: GenericParamId, filter: TraitFilter) -> bool {
    &&& param.kind == GenericKind::Impl
    &&& lookup(db.facts.generic_params@, param) matches Some(f) && f.named_trait == Ok::<
        _,
        DiagnosticAdded,
    >(filter.trait_id)
    &&& db.spec_param_trait(param) matches Ok(t) && trait_fits(db, t, filter)
}

/// The generic parameters of a lookup context that are candidates.
pub open spec fn param_candidates(
    db: SemanticGroup,
    params: Seq<GenericParamId>,
    filter: TraitFilter,
) -> Seq<UninferredImpl> {
    params.filter_map(
        |param: GenericParamId|
            if param_fits(db, param, filter) {
                Some(UninferredImpl::GenericParam(param))
            } else {
                None
            },
    )
}

/// The candidates in a scope; a scope where looking for them fails gives none.
pub open spec fn scope_candidates(
    db: SemanticGroup,
    scope: ImplOrModuleById,
    filter: TraitFilter,
) -> Seq<UninferredImpl> {
    let found = match scope {
        ImplOrModuleById::Module(id) => if db.facts.cycles.module_filters@.contains(id) {
            Err(DiagnosticAdded)
        } else {
            module_filtered(db, id, filter)
        },
        ImplOrModuleById::Impl(id) => if db.facts.cycles.impl_filters@.contains(id) {
            Err(DiagnosticAdded)
        } else {
            impl_filtered(db, id, filter)
        },
    };
    match found {
        Ok(impls) => impls,
        Err(_) => seq![],
    }
}

/// The candidates in some scopes, one scope after the other.
pub open spec fn scopes_candidates(
    db: SemanticGroup,
    scopes: Seq<ImplOrModuleById>,
    filter: TraitFilter,
) -> Seq<UninferredImpl>
    decreases scopes.len(),
{
    if scopes.len() == 0 {
        seq![]
    } else {
        scopes_candidates(db, scopes.drop_last(), filter) + scope_candidates(
            db,
            scopes.last(),
            filter,
        )
    }
}

/// The candidates in a lookup context: generic parameters first, then what the scopes hold, each
/// candidate once.
pub open spec fn context_candidates(
    db: SemanticGroup,
    context: ContextView,
    filter: TraitFilter,
) -> Seq<UninferredImpl> {
    set_extend(
        Seq::empty(),
        param_candidates(db, context.generic_params, filter) + scopes_candidates(
            db,
            context.modules_and_impls,
            filter,
        ),
    )
}

/// Whether the impls of a lookup context can be looked into.
pub open spec fn context_ready(db: SemanticGroup, context: ContextView) -> bool {
    forall|i: int|
        0 <= i < context.modules_and_impls.len() ==> ((
        #[trigger] context.modules_and_impls[i]) matches ImplOrModuleById::Impl(id)
            ==> db.has_impl(id) && impl_items_belong(db, id))
}

/// Whether a generic parameter is a candidate that passes a filter.
fn check_param(db: &SemanticGroup, param: GenericParamId, filter: &TraitFilter) -> (res: bool)
    requires
        db.wf(),
    ensures
        res == param_fits(*db, param, *filter),
{
    if param.kind != GenericKind::Impl {
        return false;
    }
    let named = match db.facts.generic_params.get(&param) {
        Some(f) => match f.named_trait {
            Ok(trait_id) => trait_id == filter.trait_id,
            Err(_) => false,
        },
        None => false,
    };
    if !named {
        return false;
    }
    match db.param_trait(param) {
        Ok(t) => match concrete_trait_fits_trait_filter(db, t, filter) {
            Ok(fits) => fits,
            Err(_) => false,
        },
        Err(_) => false,
    }
}

/// The candidates in a scope.
fn find_in_scope(db: &SemanticGroup, scope: ImplOrModuleById, filter: &TraitFilter) -> (res: Vec<
    UninferredImpl,
>)
    requires
        db.wf(),
        scope matches ImplOrModuleById::Impl(id) ==> db.has_impl(id) && impl_items_belong(*db, id),
    ensures
        res@ == scope_candidates(*db, scope, *filter),
{
    let found = match scope {
        ImplOrModuleById::Module(id) => if db.facts.cycles.module_filters.contains(&id) {
            module_impl_ids_for_trait_filter_cycle(id, *filter)
        } else {
            module_impl_ids_for_trait_filter(db, id, *filter)
        },
        ImplOrModuleById::Impl(id) => if db.facts.cycles.impl_filters.contains(&id) {
            impl_impl_ids_for_trait_filter_cycle(id, *filter)
        } else {
            impl_impl_ids_for_trait_filter(db, id, *filter)
        },
    };
    match found {
        Ok(impls) => impls,
        Err(_) => {
            let none: Vec<UninferredImpl> = Vec::new();
            assert(none@ =~= Seq::empty());
            none
        },
    }
}

/// Finds all the implementations of a concrete trait, in a specific lookup context.
pub fn find_candidates_at_context(
    db: &SemanticGroup,
    lookup_context: &ImplLookupContext,
    filter: &TraitFilter,
) -> (res: Maybe<OrderedHashSet<UninferredImpl>>)
    requires
        db.wf(),
        context_ready(*db, lookup_context@),
    ensures
        res matches Ok(impls) && impls@ == context_candidates(*db, lookup_context@, *filter),
{
    let mut res: OrderedHashSet<UninferredImpl> = OrderedHashSet::new();
    let params = &lookup_context.generic_params;
    let ghost candidate = |param: GenericParamId|
        if param_fits(*db, param, *filter) {
            Some(UninferredImpl::GenericParam(param))
        } else {
            None
        };
    let mut i: usize = 0;
    assert(params@.take(0).filter_map(candidate) =~= Seq::empty());
    while i < params.len()
        invariant
            db.wf(),
            i <= params.len(),
            candidate == (|param: GenericParamId|
                if param_fits(*db, param, *filter) {
                    Some(UninferredImpl::GenericParam(param))
                } else {
                    None
                }),
            res@ == set_extend(Seq::empty(), params@.take(i as int).filter_map(candidate)),
        decreases params.len() - i,
    {
        proof {
            params@.lemma_filter_map_take_succ(candidate, i as int);
        }
        let ghost so_far = params@.take(i as int).filter_map(candidate);
        let param = params[i];
        if check_param(db, param, filter) {
            let imp = UninferredImpl::GenericParam(param);
            res.insert(imp);
            proof {
                assert(params@.take(i + 1).filter_map(candidate) =~= so_far.push(imp));
                assert(so_far.push(imp).drop_last() =~= so_far);
            }
        } else {
            assert(params@.take(i + 1).filter_map(candidate) =~= so_far);
        }
        i += 1;
    }
    assert(params@.take(params@.len() as int) =~= params@);
    let ghost from_params = param_candidates(*db, params@, *filter);
    let ghost scopes = lookup_context@.modules_and_impls;
    let count: usize = lookup_context.modules_and_impls.len();
    let mut j: usize = 0;
    assert(scopes.take(0) =~= Seq::empty());
    assert(from_params + Seq::<UninferredImpl>::empty() =~= from_params);
    while j < count
        invariant
            db.wf(),
            context_ready(*db, lookup_context@),
            scopes == lookup_context@.modules_and_impls,
            j <= count == scopes.len(),
            res@ == set_extend(
                Seq::empty(),
                from_params + scopes_candidates(*db, scopes.take(j as int), *filter),
            ),
        decreases count - j,
    {
        let ghost so_far = scopes_candidates(*db, scopes.take(j as int), *filter);
        assert(scopes.take(j + 1).drop_last() =~= scopes.take(j as int));
        let scope = lookup_context.modules_and_impls.at(j);
        assert(scope == scopes[j as int]);
        let impls = find_in_scope(db, scope, filter);
        assert(views(impls@) =~= impls@);
        res.extend(&impls);
        proof {
            lemma_set_extend_concat(Seq::empty(), from_params + so_far, impls@);
            assert(from_params + so_far + impls@ =~= from_params + (so_far + impls@));
        }
        j += 1;
    }
    assert(scopes.take(count as int) =~= scopes);
    Ok(res)
}

// --- Laws ---

/// A filter on the first generic argument finds nothing that is not found without one.
pub proof fn law_filters_only_narrow(
    db: SemanticGroup,
    imp: UninferredImpl,
    trait_id: TraitId,
    generics_filter: GenericsHeadFilter,
)
    requires
        candidate_fits(db, imp, TraitFilter { trait_id, generics_filter }),
    ensures
        candidate_fits(
            db,
            imp,
            TraitFilter { trait_id, generics_filter: GenericsHeadFilter::NoFilter },
        ),
{
}

/// A candidate that passes a filter on the first generic argument is not passed over: its first
/// argument has the head asked for, or has no head yet.
pub proof fn law_first_generic_filter(
    db: SemanticGroup,
    id: ConcreteTraitId,
    trait_id: TraitId,
    head: GenericArgumentHead,
)
    requires
        db.spec_trait_long(id).trait_id == trait_id,
        db.spec_trait_long(id).generic_args.len() > 0,
    ensures
        trait_fits(
            db,
            id,
            TraitFilter { trait_id, generics_filter: GenericsHeadFilter::FirstGenericFilter(head) },
        ) <==> (db.spec_head(db.spec_trait_long(id).generic_args[0]) is None || db.spec_head(
            db.spec_trait_long(id).generic_args[0],
        ) == Some(head)),
{
}

/// A part of a list that keeps its elements apart keeps them apart.
proof fn lemma_filter_distinct<A>(s: Seq<A>, keep: spec_fn(A) -> bool)
    requires
        s.no_duplicates(),
    ensures
        s.filter(keep).no_duplicates(),
    decreases s.len(),
{
    reveal(Seq::filter);
    if s.len() > 0 {
        let init = s.drop_last();
        lemma_filter_distinct(init, keep);
        let kept = init.filter(keep);
        if keep(s.last()) {
            if kept.contains(s.last()) {
                crate::collections::lemma_filter_members(init, keep, s.last());
                let i = choose|i: int| 0 <= i < init.len() && init[i] == s.last();
                assert(s[i] == s[s.len() - 1]);
            }
            assert(s.filter(keep) == kept.push(s.last()));
        }
    }
}

/// The candidates in a module are those of its own items and of the modules whose items it takes
/// in that pass the filter, each once, and its own come first.
pub proof fn law_module_candidates(
    db: SemanticGroup,
    module_id: ModuleId,
    filter: TraitFilter,
    own: Seq<UninferredImpl>,
    found: Seq<UninferredImpl>,
)
    requires
        module_candidates(db, module_id, module_id) == Ok::<_, DiagnosticAdded>(own),
        module_filtered(db, module_id, filter) == Ok::<_, DiagnosticAdded>(found),
    ensures
        found.no_duplicates(),
        fitting(db, set_extend(Seq::empty(), own), filter).is_prefix_of(found),
        forall|imp: UninferredImpl| #[trigger]
            found.contains(imp) <==> candidate_fits(db, imp, filter) && (own.contains(imp)
                || star_candidates(
                db,
                lookup(db.facts.modules@, module_id)->0.use_star_modules@,
            ).contains(imp)),
{
    let stars = star_candidates(db, lookup(db.facts.modules@, module_id)->0.use_star_modules@);
    let keep = |imp: UninferredImpl| candidate_fits(db, imp, filter);
    let empty = Seq::<UninferredImpl>::empty();
    let first = set_extend(empty, own);
    let all = set_extend(empty, own + stars);
    law_set_extend(empty, own + stars);
    law_set_extend(empty, own);
    law_set_extend(first, stars);
    lemma_set_extend_concat(empty, own, stars);
    lemma_filter_distinct(all, keep);
    let rest = all.skip(first.len() as int);
    assert(all =~= first + rest);
    Seq::<UninferredImpl>::filter_distributes_over_add(first, rest, keep);
    assert(found == first.filter(keep) + rest.filter(keep));
    assert forall|imp: UninferredImpl| #[trigger] found.contains(imp) <==> candidate_fits(
        db,
        imp,
        filter,
    ) && (own.contains(imp) || stars.contains(imp)) by {
        crate::collections::lemma_filter_members(all, keep, imp);
        lemma_concat_members(own, stars, imp);
        assert(all.contains(imp) <==> empty.contains(imp) || (own + stars).contains(imp));
        assert(!empty.contains(imp));
    }
}

proof fn lemma_param_candidates(
    db: SemanticGroup,
    params: Seq<GenericParamId>,
    filter: TraitFilter,
    imp: UninferredImpl,
)
    ensures
        param_candidates(db, params, filter).contains(imp) <==> (imp matches
            UninferredImpl::GenericParam(param) && params.contains(param) && param_fits(
            db,
            param,
            filter,
        )),
    decreases params.len(),
{
    let f = |param: GenericParamId|
        if param_fits(db, param, filter) {
            Some(UninferredImpl::GenericParam(param))
        } else {
            None
        };
    let found = params.filter_map(f);
    if found.contains(imp) {
        params.lemma_filter_map_contains(f, imp);
    }
    if let UninferredImpl::GenericParam(param) = imp {
        if params.contains(param) && param_fits(db, param, filter) {
            let k = choose|k: int| 0 <= k < params.len() && params[k] == param;
            params.lemma_filter_map_take_succ(f, k);
            assert(params.take(k + 1).filter_map(f).last() == imp);
            lemma_filter_map_grows(params, f, k + 1);
            let m = params.take(k + 1).filter_map(f).len() - 1;
            assert(found[m] == imp);
        }
    }
}

proof fn lemma_filter_map_grows<A, B>(s: Seq<A>, f: spec_fn(A) -> Option<B>, k: int)
    requires
        0 <= k <= s.len(),
    ensures
        s.take(k).filter_map(f).is_prefix_of(s.filter_map(f)),
    decreases s.len() - k,
{
    if k == s.len() {
        assert(s.take(k) =~= s);
    } else {
        s.lemma_filter_map_take_succ(f, k);
        lemma_filter_map_grows(s, f, k + 1);
    }
}

proof fn lemma_scopes_candidates(
    db: SemanticGroup,
    scopes: Seq<ImplOrModuleById>,
    filter: TraitFilter,
    imp: UninferredImpl,
)
    ensures
        scopes_candidates(db, scopes, filter).contains(imp) <==> exists|i: int|
            0 <= i < scopes.len() && scope_candidates(db, #[trigger] scopes[i], filter).contains(
                imp,
            ),
    decreases scopes.len(),
{
    if scopes.len() > 0 {
        let init = scopes.drop_last();
        lemma_scopes_candidates(db, init, filter, imp);
        lemma_concat_members(
            scopes_candidates(db, init, filter),
            scope_candidates(db, scopes.last(), filter),
            imp,
        );
        if scopes_candidates(db, init, filter).contains(imp) {
            let i = choose|i: int|
                0 <= i < init.len() && scope_candidates(db, #[trigger] init[i], filter).contains(
                    imp,
                );
            assert(scopes[i] == init[i]);
        }
        if scope_candidates(db, scopes.last(), filter).contains(imp) {
            assert(scopes[scopes.len() - 1] == scopes.last());
        }
        if exists|i: int|
            0 <= i < scopes.len() && scope_candidates(db, #[trigger] scopes[i], filter).contains(
                imp,
            ) {
            let i = choose|i: int|
                0 <= i < scopes.len() && scope_candidates(db, #[trigger] scopes[i], filter).contains(
                    imp,
                );
            if i < init.len() {
                assert(init[i] == scopes[i]);
            }
        }
    }
}

/// The candidates in a lookup context are the generic parameters that pass the filter and what
/// its scopes hold, each once, and the parameters come first.
pub proof fn law_context_candidates(db: SemanticGroup, context: ContextView, filter: TraitFilter)
    ensures
        context_candidates(db, context, filter).no_duplicates(),
        set_extend(
            Seq::empty(),
            param_candidates(db, context.generic_params, filter),
        ).is_prefix_of(context_candidates(db, context, filter)),
        forall|imp: UninferredImpl| #[trigger]
            context_candidates(db, context, filter).contains(imp) <==> ((imp matches
                UninferredImpl::GenericParam(param) && context.generic_params.contains(param)
                && param_fits(db, param, filter)) || exists|i: int|
                0 <= i < context.modules_and_impls.len() && scope_candidates(
                    db,
                    #[trigger] context.modules_and_impls[i],
                    filter,
                ).contains(imp)),
{
    let empty = Seq::<UninferredImpl>::empty();
    let params = param_candidates(db, context.generic_params, filter);
    let rest = scopes_candidates(db, context.modules_and_impls, filter);
    law_set_extend(empty, params + rest);
    law_set_extend(empty, params);
    law_set_extend(set_extend(empty, params), rest);
    lemma_set_extend_concat(empty, params, rest);
    assert forall|imp: UninferredImpl| #[trigger]
        context_candidates(db, context, filter).contains(imp) <==> ((imp matches
            UninferredImpl::GenericParam(param) && context.generic_params.contains(param)
            && param_fits(db, param, filter)) || exists|i: int|
            0 <= i < context.modules_and_impls.len() && scope_candidates(
                db,
                #[trigger] context.modules_and_impls[i],
                filter,
            ).contains(imp)) by {
        lemma_concat_members(params, rest, imp);
        lemma_param_candidates(db, context.generic_params, filter, imp);
        lemma_scopes_candidates(db, context.modules_and_impls, filter, imp);
        assert(!empty.contains(imp));
    }
}

/// Whether a concrete trait is one of the trait that is looked for, with the generic arguments that
/// are asked for: any, none, or a first one whose head is the given one, or is not known.
pub open spec fn is_looked_for(db: SemanticGroup, t: ConcreteTraitId, filter: TraitFilter) -> bool {
    let args = db.interned@.concrete_traits[t.0 as int].generic_args;
    &&& db.interned@.concrete_traits[t.0 as int].trait_id == filter.trait_id
    &&& filter.generics_filter is NoGenerics ==> args.len() == 0
    &&& filter.generics_filter matches GenericsHeadFilter::FirstGenericFilter(head) ==> args.len()
        > 0 && (!has_key(db.facts.heads@, args[0]) || lookup(db.facts.heads@, args[0]) == Some(
        head,
    ))
}

/// Whether it is recorded that an impl parameter is one of the trait that is looked for.
pub open spec fn is_param_looked_for(
    db: SemanticGroup,
    param: GenericParamId,
    filter: TraitFilter,
) -> bool {
    &&& param.kind == GenericKind::Impl
    &&& lookup(db.facts.generic_params@, param) matches Some(f) && {
        &&& f.named_trait matches Ok(named) && named == filter.trait_id
        &&& f.semantic matches Ok(GenericParam::Impl(p)) && (p.concrete_trait matches Ok(t)
            && is_looked_for(db, t, filter))
    }
}

/// The candidates in scopes are no generic parameters.
proof fn lemma_scopes_hold_no_params(
    db: SemanticGroup,
    scope: ImplOrModuleById,
    filter: TraitFilter,
    param: GenericParamId,
)
    ensures
        !scope_candidates(db, scope, filter).contains(UninferredImpl::GenericParam(param)),
{
    let imp = UninferredImpl::GenericParam(param);
    match scope {
        ImplOrModuleById::Module(id) => {
            if let Ok(own) = module_candidates(db, id, id) {
                let found = module_filtered(db, id, filter)->Ok_0;
                law_module_candidates(db, id, filter, own, found);
                lemma_module_candidates_plain(db, id, id);
                lemma_star_plain(db, lookup(db.facts.modules@, id)->0.use_star_modules@);
            }
        },
        ImplOrModuleById::Impl(id) => {
            if let Ok(trait_impls) = impls_of_trait(db, id) {
                crate::collections::lemma_filter_members(
                    impl_candidates(id, trait_impls),
                    |imp: UninferredImpl| candidate_fits(db, imp, filter),
                    imp,
                );
            }
        },
    }
}

/// A generic parameter is found in a lookup context exactly where it is one of the context, and an
/// impl parameter of the trait that is looked for. Without a filter on the generic arguments these
/// do not matter.
pub proof fn law_impl_parameters_are_candidates(
    db: SemanticGroup,
    context: ContextView,
    filter: TraitFilter,
    param: GenericParamId,
)
    ensures
        context_candidates(db, context, filter).contains(UninferredImpl::GenericParam(param))
            <==> context.generic_params.contains(param) && is_param_looked_for(db, param, filter),
{
    law_context_candidates(db, context, filter);
    let imp = UninferredImpl::GenericParam(param);
    assert(context_candidates(db, context, filter).contains(imp) <==> (
    context.generic_params.contains(param) && param_fits(db, param, filter)) || exists|i: int|
        0 <= i < context.modules_and_impls.len() && scope_candidates(
            db,
            #[trigger] context.modules_and_impls[i],
            filter,
        ).contains(imp));
    assert forall|i: int| 0 <= i < context.modules_and_impls.len() implies !scope_candidates(
        db,
        #[trigger] context.modules_and_impls[i],
        filter,
    ).contains(imp) by {
        lemma_scopes_hold_no_params(db, context.modules_and_impls[i], filter, param);
    }
}

/// Whether an item of a module is, or brings in, an impl, and is visible from where it is looked for.
pub open spec fn item_gives(
    db: SemanticGroup,
    user_module: ModuleId,
    containing_module: ModuleId,
    item: ModuleItemInfo,
    imp: UninferredImpl,
) -> bool {
    &&& db.facts.visible@.contains(
        VisibilityQuestion { visibility: item.visibility, containing_module, user_module },
    )
    &&& match imp {
        UninferredImpl::Def(def) => {
            ||| item.item_id matches ModuleItemId::Impl(id) && id == def
            ||| item.item_id matches ModuleItemId::Use(id) && (lookup(db.facts.uses@, id) matches Some(
                Ok(ResolvedGenericItem::Impl(used)),
            ) && used == def)
        },
        UninferredImpl::ImplAlias(alias) => {
            ||| item.item_id matches ModuleItemId::ImplAlias(id) && id == alias
            ||| item.item_id matches ModuleItemId::Use(id) && (lookup(db.facts.uses@, id) matches Some(
                Ok(ResolvedGenericItem::GenericImplAlias(used)),
            ) && used == alias)
        },
        _ => false,
    }
}

/// Whether a module has an item that gives an impl.
pub open spec fn module_gives(
    db: SemanticGroup,
    user_module: ModuleId,
    containing_module: ModuleId,
    imp: UninferredImpl,
) -> bool {
    lookup(db.facts.modules@, containing_module) matches Some(f) && (f.items matches Ok(items)
        && exists|i: int|
        0 <= i < items@.len() && item_gives(
            db,
            user_module,
            containing_module,
            #[trigger] items@[i],
            imp,
        ))
}

/// An impl is among those of a module exactly where an item of the module gives it.
pub proof fn law_modules_give_their_impls(
    db: SemanticGroup,
    user_module: ModuleId,
    containing_module: ModuleId,
    imp: UninferredImpl,
)
    ensures
        module_candidates(db, user_module, containing_module) is Ok <==> (lookup(
            db.facts.modules@,
            containing_module,
        ) matches Some(f) && f.items is Ok),
        (module_candidates(db, user_module, containing_module) matches Ok(impls) && impls.contains(
            imp,
        )) <==> module_gives(db, user_module, containing_module, imp),
{
    if let Ok(impls) = module_candidates(db, user_module, containing_module) {
        let items = lookup(db.facts.modules@, containing_module)->0.items->Ok_0@;
        let f = |item: ModuleItemInfo| item_candidate(db, user_module, containing_module, item);
        if impls.contains(imp) {
            items.lemma_filter_map_contains(f, imp);
            let item = choose|item: ModuleItemInfo| #[trigger]
                items.contains(item) && f(item) == Some(imp);
            let i = choose|i: int| 0 <= i < items.len() && items[i] == item;
            assert(item_gives(db, user_module, containing_module, items[i], imp));
        }
        if module_gives(db, user_module, containing_module, imp) {
            let k = choose|k: int|
                0 <= k < items.len() && item_gives(
                    db,
                    user_module,
                    containing_module,
                    #[trigger] items[k],
                    imp,
                );
            assert(f(items[k]) == Some(imp));
            lemma_filter_map_has(items, f, k, imp);
        }
    }
}

/// What a list makes of its elements holds what it makes of one.
proof fn lemma_filter_map_has<A, B>(s: Seq<A>, f: spec_fn(A) -> Option<B>, k: int, b: B)
    requires
        0 <= k < s.len(),
        f(s[k]) == Some(b),
    ensures
        s.filter_map(f).contains(b),
{
    s.lemma_filter_map_take_succ(f, k);
    let part = s.take(k + 1).filter_map(f);
    assert(part.last() == b);
    lemma_filter_map_grows(s, f, k + 1);
    assert(s.filter_map(f)[part.len() - 1] == b);
}

/// The impls of modules that are taken in are those that some of the modules gives.
proof fn lemma_stars_give(
    db: SemanticGroup,
    modules: Seq<(ModuleId, ModuleId)>,
    imp: UninferredImpl,
)
    ensures
        star_candidates(db, modules).contains(imp) <==> exists|i: int|
            0 <= i < modules.len() && module_gives(
                db,
                (#[trigger] modules[i]).0,
                modules[i].1,
                imp,
            ),
    decreases modules.len(),
{
    if modules.len() > 0 {
        let init = modules.drop_last();
        let (user_module, containing_module) = modules.last();
        lemma_stars_give(db, init, imp);
        law_modules_give_their_impls(db, user_module, containing_module, imp);
        let last = match module_candidates(db, user_module, containing_module) {
            Ok(impls) => impls,
            Err(_) => seq![],
        };
        lemma_concat_members(star_candidates(db, init), last, imp);
        if star_candidates(db, init).contains(imp) {
            let i = choose|i: int|
                0 <= i < init.len() && module_gives(db, (#[trigger] init[i]).0, init[i].1, imp);
            assert(modules[i] == init[i]);
        }
        if last.contains(imp) {
            assert(modules[modules.len() - 1] == modules.last());
        }
        if exists|i: int|
            0 <= i < modules.len() && module_gives(
                db,
                (#[trigger] modules[i]).0,
                modules[i].1,
                imp,
            ) {
            let i = choose|i: int|
                0 <= i < modules.len() && module_gives(
                    db,
                    (#[trigger] modules[i]).0,
                    modules[i].1,
                    imp,
                );
            if i < init.len() {
                assert(init[i] == modules[i]);
            }
        }
    } else {
        assert(!star_candidates(db, modules).contains(imp));
    }
}

/// Whether it is recorded that an impl definition, or an alias, is one of the trait that is looked
/// for: its path names the trait, and the trait that it implements is the one looked for.
pub open spec fn is_impl_looked_for(
    db: SemanticGroup,
    imp: UninferredImpl,
    filter: TraitFilter,
) -> bool {
    match imp {
        UninferredImpl::Def(def) => {
            &&& names_trait(db, def, filter.trait_id)
            &&& db.spec_impl_def_concrete_trait(def) matches Ok(t) && is_looked_for(db, t, filter)
        },
        UninferredImpl::ImplAlias(alias) => lookup(
            db.facts.impl_aliases@,
            alias,
        ) matches Some(f) && {
            &&& f.impl_def matches Ok(def) && names_trait(db, def, filter.trait_id)
            &&& f.resolved_impl matches Ok(aliased) && (impl_trait(db, aliased) matches Ok(t)
                && is_looked_for(db, t, filter))
        },
        _ => false,
    }
}

/// Whether the path of an impl definition names a trait.
pub open spec fn names_trait(db: SemanticGroup, def: ImplDefId, trait_id: TraitId) -> bool {
    lookup(db.facts.impl_defs@, def) matches Some(f) && {
        &&& f.ast matches Ok(Some(_))
        &&& f.named_trait matches Ok(named) && named == trait_id
    }
}

/// Whether a module that is no part of a cycle gives an impl, by an item of its own or of a module
/// whose items it takes in. A module whose own items are not known gives none.
pub open spec fn scope_module_gives(
    db: SemanticGroup,
    module_id: ModuleId,
    imp: UninferredImpl,
) -> bool {
    &&& !db.facts.cycles.module_filters@.contains(module_id)
    &&& lookup(db.facts.modules@, module_id) matches Some(f) && f.items is Ok && {
        ||| module_gives(db, module_id, module_id, imp)
        ||| exists|i: int|
            0 <= i < f.use_star_modules@.len() && module_gives(
                db,
                (#[trigger] f.use_star_modules@[i]).0,
                f.use_star_modules@[i].1,
                imp,
            )
    }
}

/// An impl definition, or an alias, is found in a lookup context exactly where a module of the
/// context gives it, and it is one of the trait that is looked for.
pub proof fn law_impls_of_modules_are_candidates(
    db: SemanticGroup,
    context: ContextView,
    filter: TraitFilter,
    imp: UninferredImpl,
)
    requires
        imp is Def || imp is ImplAlias,
    ensures
        context_candidates(db, context, filter).contains(imp) <==> is_impl_looked_for(
            db,
            imp,
            filter,
        ) && exists|i: int|
            0 <= i < context.modules_and_impls.len() && ((
            #[trigger] context.modules_and_impls[i]) matches ImplOrModuleById::Module(m)
                && scope_module_gives(db, m, imp)),
{
    law_context_candidates(db, context, filter);
    let scopes = context.modules_and_impls;
    assert(is_impl_looked_for(db, imp, filter) <==> candidate_fits(db, imp, filter));
    assert forall|i: int| 0 <= i < scopes.len() implies (scope_candidates(
        db,
        #[trigger] scopes[i],
        filter,
    ).contains(imp) <==> candidate_fits(db, imp, filter) && (scopes[i] matches
        ImplOrModuleById::Module(m) && scope_module_gives(db, m, imp))) by {
        lemma_scope_gives(db, scopes[i], filter, imp);
    }
    assert(context_candidates(db, context, filter).contains(imp) <==> exists|i: int|
        0 <= i < scopes.len() && scope_candidates(db, #[trigger] scopes[i], filter).contains(imp));
    if context_candidates(db, context, filter).contains(imp) {
        let i = choose|i: int|
            0 <= i < scopes.len() && scope_candidates(db, #[trigger] scopes[i], filter).contains(
                imp,
            );
        assert(scopes[i] matches ImplOrModuleById::Module(m) && scope_module_gives(db, m, imp));
    }
}

proof fn lemma_scope_gives(
    db: SemanticGroup,
    scope: ImplOrModuleById,
    filter: TraitFilter,
    imp: UninferredImpl,
)
    requires
        imp is Def || imp is ImplAlias,
    ensures
        scope_candidates(db, scope, filter).contains(imp) <==> candidate_fits(db, imp, filter) && (
        scope matches ImplOrModuleById::Module(m) && scope_module_gives(db, m, imp)),
{
    match scope {
        ImplOrModuleById::Module(id) => {
            law_modules_give_their_impls(db, id, id, imp);
            if let Ok(own) = module_candidates(db, id, id) {
                let found = module_filtered(db, id, filter)->Ok_0;
                law_module_candidates(db, id, filter, own, found);
                lemma_stars_give(db, lookup(db.facts.modules@, id)->0.use_star_modules@, imp);
            }
        },
        ImplOrModuleById::Impl(id) => {
            if let Ok(trait_impls) = impls_of_trait(db, id) {
                crate::collections::lemma_filter_members(
                    impl_candidates(id, trait_impls),
                    |imp: UninferredImpl| candidate_fits(db, imp, filter),
                    imp,
                );
            }
        },
    }
}

/// An impl item is found in a lookup context exactly where its impl is one of the context and no
/// part of a cycle, the trait of the impl has the item, and the trait of the item is the one that is
/// looked for.
pub proof fn law_items_of_impls_are_candidates(
    db: SemanticGroup,
    context: ContextView,
    filter: TraitFilter,
    id: ImplImplId,
)
    ensures
        context_candidates(db, context, filter).contains(UninferredImpl::ImplImpl(id)) <==> {
            &&& context.modules_and_impls.contains(ImplOrModuleById::Impl(id.impl_id))
            &&& !db.facts.cycles.impl_filters@.contains(id.impl_id)
            &&& impl_trait(db, id.impl_id) matches Ok(outer) && (lookup(
                db.facts.traits@,
                db.interned@.concrete_traits[outer.0 as int].trait_id,
            ) matches Some(f) && (f.impls matches Ok(items) && exists|i: int|
                0 <= i < items@.len() && (#[trigger] items@[i]).1 == id.trait_impl_id))
            &&& impl_impl_trait(db, id) matches Ok(t) && is_looked_for(db, t, filter)
        },
{
    let imp = UninferredImpl::ImplImpl(id);
    let scopes = context.modules_and_impls;
    law_context_candidates(db, context, filter);
    assert forall|i: int| 0 <= i < scopes.len() implies (scope_candidates(
        db,
        #[trigger] scopes[i],
        filter,
    ).contains(imp) <==> scopes[i] == ImplOrModuleById::Impl(id.impl_id)
        && scope_candidates(db, ImplOrModuleById::Impl(id.impl_id), filter).contains(imp)) by {
        lemma_impl_scope(db, scopes[i], filter, id);
    }
    lemma_impl_scope(db, ImplOrModuleById::Impl(id.impl_id), filter, id);
    assert(context_candidates(db, context, filter).contains(imp) <==> exists|i: int|
        0 <= i < scopes.len() && scope_candidates(db, #[trigger] scopes[i], filter).contains(imp));
    if scopes.contains(ImplOrModuleById::Impl(id.impl_id)) {
        let i = choose|i: int|
            0 <= i < scopes.len() && scopes[i] == ImplOrModuleById::Impl(id.impl_id);
        assert(scope_candidates(db, scopes[i], filter).contains(imp) <==> scope_candidates(
            db,
            ImplOrModuleById::Impl(id.impl_id),
            filter,
        ).contains(imp));
    }
}

proof fn lemma_impl_scope(
    db: SemanticGroup,
    scope: ImplOrModuleById,
    filter: TraitFilter,
    id: ImplImplId,
)
    ensures
        scope_candidates(db, scope, filter).contains(UninferredImpl::ImplImpl(id)) <==> {
            &&& scope == ImplOrModuleById::Impl(id.impl_id)
            &&& !db.facts.cycles.impl_filters@.contains(id.impl_id)
            &&& impls_of_trait(db, id.impl_id) matches Ok(items) && exists|i: int|
                0 <= i < items.len() && (#[trigger] items[i]).1 == id.trait_impl_id
            &&& impl_impl_trait(db, id) matches Ok(t) && is_looked_for(db, t, filter)
        },
{
    let imp = UninferredImpl::ImplImpl(id);
    match scope {
        ImplOrModuleById::Module(m) => {
            if let Ok(own) = module_candidates(db, m, m) {
                let found = module_filtered(db, m, filter)->Ok_0;
                law_module_candidates(db, m, filter, own, found);
                lemma_module_candidates_plain(db, m, m);
                lemma_star_plain(db, lookup(db.facts.modules@, m)->0.use_star_modules@);
            }
        },
        ImplOrModuleById::Impl(of) => {
            if let Ok(items) = impls_of_trait(db, of) {
                let all = impl_candidates(of, items);
                crate::collections::lemma_filter_members(
                    all,
                    |imp: UninferredImpl| candidate_fits(db, imp, filter),
                    imp,
                );
                if all.contains(imp) {
                    let i = choose|i: int| 0 <= i < all.len() && all[i] == imp;
                    assert(items[i].1 == id.trait_impl_id);
                }
                if of == id.impl_id && exists|i: int|
                    0 <= i < items.len() && (#[trigger] items[i]).1 == id.trait_impl_id {
                    let i = choose|i: int|
                        0 <= i < items.len() && (#[trigger] items[i]).1 == id.trait_impl_id;
                    assert(all[i] == imp);
                }
            }
        },
    }
}

/// What is generated for closures is not found in a lookup context.
pub proof fn law_contexts_hold_no_generated_impls(
    db: SemanticGroup,
    context: ContextView,
    filter: TraitFilter,
    id: UninferredGeneratedImplId,
)
    ensures
        !context_candidates(db, context, filter).contains(UninferredImpl::GeneratedImpl(id)),
{
    let imp = UninferredImpl::GeneratedImpl(id);
    law_context_candidates(db, context, filter);
    assert forall|i: int| 0 <= i < context.modules_and_impls.len() implies !scope_candidates(
        db,
        #[trigger] context.modules_and_impls[i],
        filter,
    ).contains(imp) by {
        match context.modules_and_impls[i] {
            ImplOrModuleById::Module(m) => {
                if let Ok(own) = module_candidates(db, m, m) {
                    let found = module_filtered(db, m, filter)->Ok_0;
                    law_module_candidates(db, m, filter, own, found);
                    lemma_module_candidates_plain(db, m, m);
                    lemma_star_plain(db, lookup(db.facts.modules@, m)->0.use_star_modules@);
                }
            },
            ImplOrModuleById::Impl(of) => {
                if let Ok(items) = impls_of_trait(db, of) {
                    crate::collections::lemma_filter_members(
                        impl_candidates(of, items),
                        |imp: UninferredImpl| candidate_fits(db, imp, filter),
                        imp,
                    );
                }
            },
        }
    }
}

/// A trait passes a filter exactly if it is the one that is looked for, and its arguments are those
/// that are asked for: any, none, or a first one that has the head or has no head that is known.
pub proof fn law_filters_look_at_the_first_argument(
    db: SemanticGroup,
    t: ConcreteTraitId,
    filter: TraitFilter,
)
    ensures
        trait_fits(db, t, filter) <==> is_looked_for(db, t, filter),
{
}

/// The candidates of a module that pass a filter are those that are looked for among the items that
/// it gives itself, and those that the modules give whose items it takes in.
pub proof fn law_filtered_modules_give_what_is_looked_for(
    db: SemanticGroup,
    module_id: ModuleId,
    filter: TraitFilter,
    imp: UninferredImpl,
)
    requires
        imp is Def || imp is ImplAlias,
    ensures
        module_filtered(db, module_id, filter) is Ok <==> (lookup(
            db.facts.modules@,
            module_id,
        ) matches Some(f) && f.items is Ok),
        (module_filtered(db, module_id, filter) matches Ok(found) && found.contains(imp)) <==> {
            &&& is_impl_looked_for(db, imp, filter)
            &&& lookup(db.facts.modules@, module_id) matches Some(f) && f.items is Ok && {
                ||| module_gives(db, module_id, module_id, imp)
                ||| exists|i: int|
                    0 <= i < f.use_star_modules@.len() && module_gives(
                        db,
                        (#[trigger] f.use_star_modules@[i]).0,
                        f.use_star_modules@[i].1,
                        imp,
                    )
            }
        },
{
    law_modules_give_their_impls(db, module_id, module_id, imp);
    assert(is_impl_looked_for(db, imp, filter) <==> candidate_fits(db, imp, filter));
    if let Ok(own) = module_candidates(db, module_id, module_id) {
        let found = module_filtered(db, module_id, filter)->Ok_0;
        law_module_candidates(db, module_id, filter, own, found);
        lemma_stars_give(db, lookup(db.facts.modules@, module_id)->0.use_star_modules@, imp);
    }
}

/// The impl items of an impl that pass a filter are those of its trait whose trait is the one that is
/// looked for.
pub proof fn law_filtered_impls_give_what_is_looked_for(
    db: SemanticGroup,
    impl_id: ImplId,
    filter: TraitFilter,
    outer: ConcreteTraitId,
    items: Seq<(SmolStrId, TraitImplId)>,
    trait_impl_id: TraitImplId,
)
    requires
        impl_trait(db, impl_id) == Ok::<_, DiagnosticAdded>(outer),
        lookup(
            db.facts.traits@,
            db.interned@.concrete_traits[outer.0 as int].trait_id,
        ) matches Some(f) && (f.impls matches Ok(table) && table@ == items),
    ensures
        impl_filtered(db, impl_id, filter) matches Ok(found) && (found.contains(
            UninferredImpl::ImplImpl(ImplImplId { impl_id, trait_impl_id }),
        ) <==> {
            &&& exists|i: int| 0 <= i < items.len() && (#[trigger] items[i]).1 == trait_impl_id
            &&& impl_impl_trait(db, ImplImplId { impl_id, trait_impl_id }) matches Ok(t)
                && is_looked_for(db, t, filter)
        }),
{
    let imp = UninferredImpl::ImplImpl(ImplImplId { impl_id, trait_impl_id });
    let all = impl_candidates(impl_id, items);
    crate::collections::lemma_filter_members(
        all,
        |imp: UninferredImpl| candidate_fits(db, imp, filter),
        imp,
    );
    if all.contains(imp) {
        let i = choose|i: int| 0 <= i < all.len() && all[i] == imp;
        assert(items[i].1 == trait_impl_id);
    }
    if exists|i: int| 0 <= i < items.len() && (#[trigger] items[i]).1 == trait_impl_id {
        let i = choose|i: int| 0 <= i < items.len() && (#[trigger] items[i]).1 == trait_impl_id;
        assert(all[i] == imp);
    }
}

/// The scopes of a lookup context are looked through in their order: what one more scope adds comes
/// behind all that was found before.
pub proof fn law_later_scopes_add_to_the_end(
    db: SemanticGroup,
    context: ContextView,
    scope: ImplOrModuleById,
    filter: TraitFilter,
)
    ensures
        ({
            let more = ContextView {
                modules_and_impls: context.modules_and_impls.push(scope),
                generic_params: context.generic_params,
            };
            context_candidates(db, context, filter).is_prefix_of(
                context_candidates(db, more, filter),
            )
        }),
{
    let scopes = context.modules_and_impls;
    let params = param_candidates(db, context.generic_params, filter);
    let before = scopes_candidates(db, scopes, filter);
    let added = scope_candidates(db, scope, filter);
    assert(scopes.push(scope).drop_last() =~= scopes);
    assert(params + (before + added) =~= (params + before) + added);
    lemma_set_extend_concat(Seq::empty(), params + before, added);
    law_set_extend(Seq::<UninferredImpl>::empty(), params + before);
    law_set_extend(set_extend(Seq::empty(), params + before), added);
}

/// A candidate implements the trait that is recorded for it: a definition that of its path, an alias
/// that of the impl that it stands for, a parameter its own, and a generated one the one that it was
/// made with.
pub proof fn law_candidates_implement_the_trait_recorded_for_them(
    db: SemanticGroup,
    imp: UninferredImpl,
)
    ensures
        match imp {
            UninferredImpl::Def(def) => {
                &&& candidate_trait(db, imp) == db.spec_impl_def_concrete_trait(def)
                &&& forall|t: TraitId|
                    candidate_trait_id(db, imp) == Ok::<_, DiagnosticAdded>(t)
                        <==> #[trigger] names_trait(db, def, t)
            },
            UninferredImpl::ImplAlias(alias) => match lookup(db.facts.impl_aliases@, alias) {
                Some(f) => {
                    &&& f.resolved_impl matches Ok(aliased) ==> candidate_trait(db, imp)
                        == impl_trait(db, aliased)
                    &&& f.resolved_impl is Err ==> candidate_trait(db, imp) is Err
                    &&& f.impl_def matches Ok(def) ==> forall|t: TraitId|
                        candidate_trait_id(db, imp) == Ok::<_, DiagnosticAdded>(t)
                            <==> #[trigger] names_trait(db, def, t)
                    &&& f.impl_def is Err ==> candidate_trait_id(db, imp) is Err
                },
                None => candidate_trait(db, imp) is Err && candidate_trait_id(db, imp) is Err,
            },
            UninferredImpl::GenericParam(param) => candidate_trait(db, imp) == match lookup(
                db.facts.generic_params@,
                param,
            ) {
                Some(f) => match f.semantic {
                    Ok(GenericParam::Impl(p)) => p.concrete_trait,
                    _ => Err(DiagnosticAdded),
                },
                None => Err(DiagnosticAdded),
            },
            UninferredImpl::ImplImpl(id) => candidate_trait(db, imp) == impl_impl_trait(db, id),
            UninferredImpl::GeneratedImpl(id) => candidate_trait(db, imp) == Ok::<
                _,
                DiagnosticAdded,
            >(db.interned@.uninferred_generated_impls[id.0 as int].concrete_trait),
        },
        !(imp is Def || imp is ImplAlias) ==> match candidate_trait(db, imp) {
            Ok(t) => candidate_trait_id(db, imp) == Ok::<_, DiagnosticAdded>(
                db.interned@.concrete_traits[t.0 as int].trait_id,
            ),
            Err(_) => candidate_trait_id(db, imp) is Err,
        },
{
}

/// A candidate stands in the scope that it adds to a lookup. A generated one, which adds none, stands
/// in the module of its trait.
pub proof fn law_candidates_stand_in_the_scope_they_add(db: SemanticGroup, imp: UninferredImpl)
    ensures
        extending_scope(imp) matches Some(scope) ==> candidate_scope(db, imp) == scope,
        extending_scope(imp) is None <==> imp is GeneratedImpl,
        imp matches UninferredImpl::GeneratedImpl(id) ==> candidate_scope(db, imp)
            == ImplOrModuleById::Module(
            db.interned@.concrete_traits[db.interned@.uninferred_generated_impls[id.0 as int].concrete_trait.0 as int].trait_id.module_file_id.0,
        ),
{
}

/// A candidate is printed by what it is: a definition and an alias by their quoted paths, a parameter
/// by its name, or `_` where it has none, an item of an impl as that item, and a generated one by its
/// trait.
pub proof fn law_candidates_are_printed_by_what_they_are(db: SemanticGroup, imp: UninferredImpl)
    ensures
        match imp {
            UninferredImpl::Def(def) => lookup(db.facts.impl_defs@, def) matches Some(f)
                ==> candidate_text(db, imp) == quoted(f.full_path@),
            UninferredImpl::ImplAlias(alias) => lookup(
                db.facts.impl_aliases@,
                alias,
            ) matches Some(f) ==> candidate_text(db, imp) == quoted(f.full_path@),
            UninferredImpl::GenericParam(param) => candidate_text(db, imp) == "generic param "@
                + match param.name {
                Some(name) => text_of(db.facts.names@, name),
                None => seq!['_'],
            },
            UninferredImpl::ImplImpl(id) => candidate_text(db, imp) == impl_debug_text(
                db,
                id.impl_id,
            ) + "::"@ + text_of(db.facts.names@, id.trait_impl_id.name),
            UninferredImpl::GeneratedImpl(id) => candidate_text(db, imp) == "Generated "@ + text_of(
                db.facts.trait_texts@,
                db.interned@.uninferred_generated_impls[id.0 as int].concrete_trait,
            ),
        },
{
    reveal_strlit("_");
    assert("_"@ =~= seq!['_']);
}

} // verus!
