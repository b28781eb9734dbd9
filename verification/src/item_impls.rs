//! The associated impls of an impl: those that it names, and those that it leaves to inference.

use vstd::prelude::*;

use crate::collections::{copy_ids, has_key, lemma_concat_members, lookup};
use crate::db::SemanticGroup;
use crate::declaration::{
    impl_def_concrete_trait, impl_def_resolver_data, impl_def_substitution, is_own_substitution,
    GenericParamsData,
};
use crate::definition::{
    is_last_of_id, is_last_of_name, is_written, law_definitions_follow_the_trait,
    law_definitions_list_what_is_written, lemma_definition_grown, names_item, written_items,
};
use crate::diagnostics::{
    diagnostic, lemma_outside_members, outside_view, passed_on, skip_diagnostic, DiagnosticAdded,
    DiagnosticView, Diagnostics, ItemKind, ItemScope, Maybe, OutsideDiagnostic, SemanticDiagnostic,
    SemanticDiagnosticKind, SemanticDiagnostics,
};
use crate::facts::{
    AliasGenerics, ConcreteTraitImplId, ImplAliasOutcome, ImplItemFacts, ImplicitImplId,
    ImplicitImplOutcome, ImplicitImplQuestion, ResolverData, TraitPair,
};
use crate::ids::{
    ConcreteImplId, ConcreteTraitId, ImplDefId, ImplId, ImplImplDefId, SmolStrId, TraitImplId,
};
use crate::impls::{impl_concrete_trait, impl_trait, lemma_impl_trait_grown};
use crate::item_constants::lemma_item_belongs;
use crate::model::{GenericParam, ImplImplId, ImplLongId};
use crate::queries::made_of;
use crate::selectors::{
    impl_impl_by_id, impl_impl_by_trait_impl, impl_impls, is_implicit_impl_impl,
};
use crate::signatures::{report_if, Outcome};
use crate::substitution::{substitution_from_impl, GenericSubstitution, SubstitutionView};
use crate::syntax::{ImplItem, ItemImpl, ItemImplAlias};

verus! {

/// What an impl alias stands for.
pub struct ImplAliasData {
    pub resolved_impl: Maybe<ImplId>,
    pub generic_params: Vec<GenericParam>,
    pub resolver_data: ResolverData,
}

/// An associated impl of an impl.
pub struct ImplItemImplData {
    pub impl_data: ImplAliasData,
    /// The trait impl that the impl implements.
    pub trait_impl_id: Maybe<TraitImplId>,
    /// The diagnostics of the impl impl, including the ones for the impl itself.
    pub diagnostics: Diagnostics,
}

/// An associated impl of an impl, with its lists as sequences.
#[verifier::ext_equal]
pub struct ImplItemView {
    pub resolved_impl: Maybe<ImplId>,
    pub generic_params: Seq<GenericParam>,
    pub resolver_data: ResolverData,
    pub trait_impl_id: Maybe<TraitImplId>,
    pub diagnostics: Seq<DiagnosticView>,
}

impl View for ImplItemImplData {
    type V = ImplItemView;

    open spec fn view(&self) -> ImplItemView {
        ImplItemView {
            resolved_impl: self.impl_data.resolved_impl,
            generic_params: self.impl_data.generic_params@,
            resolver_data: self.impl_data.resolver_data,
            trait_impl_id: self.trait_impl_id,
            diagnostics: self.diagnostics@,
        }
    }
}

/// The trait that a trait impl of an impl has to implement, with the impl's own parameters.
pub open spec fn expected_impl_trait(
    db: SemanticGroup,
    s: SubstitutionView,
    concrete_trait: ConcreteTraitId,
    trait_impl_id: TraitImplId,
) -> Maybe<ConcreteTraitId> {
    match db.spec_trait_impl_trait(ConcreteTraitImplId { concrete_trait, trait_impl_id }) {
        Ok(t) => db.spec_substitute_trait(s, t),
        Err(e) => Err(e),
    }
}

/// The trait of an impl, where it is resolved.
pub open spec fn resolved_impl_trait(db: SemanticGroup, imp: Maybe<ImplId>) -> Maybe<
    ConcreteTraitId,
> {
    match imp {
        Ok(imp) => impl_trait(db, imp),
        Err(e) => Err(e),
    }
}

/// What is reported where an associated impl is not of the trait that it has to implement.
pub open spec fn mismatch_diagnostics(
    db: SemanticGroup,
    ast: ItemImplAlias,
    actual: Maybe<ConcreteTraitId>,
    expected: Maybe<ConcreteTraitId>,
) -> Seq<DiagnosticView> {
    match (actual, expected) {
        (Ok(actual_trt), Ok(expected_trt)) => report_if(
            !db.spec_conform(actual_trt, expected_trt),
            ast.stable_ptr,
            SemanticDiagnosticKind::TraitMismatch { expected_trt, actual_trt },
        ),
        _ => seq![],
    }
}

/// The trait impl that an associated impl implements, and what is wrong with it.
pub open spec fn impl_validation(
    db: SemanticGroup,
    impl_impl_def_id: ImplImplDefId,
    ast: ItemImplAlias,
    resolved_impl: Maybe<ImplId>,
    s: SubstitutionView,
) -> Outcome<TraitImplId> {
    let impl_def_id = impl_impl_def_id.impl_def_id;
    match db.spec_impl_def_concrete_trait(impl_def_id) {
        Err(e) => Outcome { diagnostics: seq![], result: Err(e) },
        Ok(concrete_trait) => {
            let trait_id = db.spec_trait_long(concrete_trait).trait_id;
            match db.spec_trait_impl_by_name(trait_id, impl_impl_def_id.name) {
                Err(e) => Outcome { diagnostics: seq![], result: Err(e) },
                Ok(None) => Outcome {
                    diagnostics: seq![
                        diagnostic(
                            ast.stable_ptr,
                            SemanticDiagnosticKind::ImplItemNotInTrait {
                                impl_def_id,
                                impl_item_name: impl_impl_def_id.name,
                                trait_id,
                                item_kind: ItemKind::Impl,
                            },
                        ),
                    ],
                    result: Err(DiagnosticAdded),
                },
                Ok(Some(trait_impl_id)) => Outcome {
                    diagnostics: report_if(
                        ast.has_generic_params,
                        ast.generic_params_ptr,
                        SemanticDiagnosticKind::GenericsNotSupportedInItem {
                            scope: ItemScope::Impl,
                            item_kind: ItemKind::Impl,
                        },
                    ) + mismatch_diagnostics(
                        db,
                        ast,
                        resolved_impl_trait(db, resolved_impl),
                        expected_impl_trait(db, s, concrete_trait, trait_impl_id),
                    ),
                    result: Ok(trait_impl_id),
                },
            }
        },
    }
}

impl SemanticGroup {
    /// The facts about an associated impl, and its syntax, where its impl has a definition.
    pub open spec fn spec_impl_item(self, id: ImplImplDefId) -> Maybe<
        (ImplItemFacts, ItemImplAlias),
    > {
        match (self.spec_definition(id.impl_def_id), lookup(self.facts.impl_items@, id)) {
            (Ok(d), Some(f)) => match lookup(d.impls, id) {
                Some(ast) => Ok((f, ast)),
                None => Err(DiagnosticAdded),
            },
            _ => Err(DiagnosticAdded),
        }
    }

    /// The generic parameters of an associated impl.
    pub open spec fn spec_impl_item_generics(self, id: ImplImplDefId) -> Maybe<AliasGenerics> {
        match self.spec_impl_item(id) {
            Ok((f, _)) => f.generics,
            Err(e) => Err(e),
        }
    }

    /// An associated impl, computed as one that depends on itself or not.
    pub open spec fn spec_impl_item_data(self, id: ImplImplDefId, in_cycle: bool) -> Maybe<
        ImplItemView,
    > {
        match self.spec_impl_item(id) {
            Ok((f, ast)) => match (
                f.generics,
                if in_cycle {
                    f.alias_in_cycle
                } else {
                    f.alias
                },
            ) {
                (Ok(generics), Ok(alias)) => {
                    let validation = impl_validation(
                        self,
                        id,
                        ast,
                        alias.resolved_impl,
                        self.own_substitution(id.impl_def_id),
                    );
                    Ok(
                        ImplItemView {
                            resolved_impl: alias.resolved_impl,
                            generic_params: generics.generic_params@,
                            resolver_data: alias.resolver_data,
                            trait_impl_id: validation.result,
                            diagnostics: outside_view(alias.diagnostics@) + validation.diagnostics,
                        },
                    )
                },
                _ => Err(DiagnosticAdded),
            },
            Err(e) => Err(e),
        }
    }

    /// Whether an associated impl depends on itself.
    pub open spec fn impl_item_in_cycle(self, id: ImplImplDefId) -> bool {
        self.facts.cycles.impl_items@.contains(id)
    }

    /// The impl that an associated impl stands for.
    pub open spec fn spec_impl_item_impl(self, id: ImplImplDefId, in_cycle: bool) -> Maybe<ImplId> {
        match self.spec_impl_item_data(id, in_cycle || self.impl_item_in_cycle(id)) {
            Ok(data) => data.resolved_impl,
            Err(e) => Err(e),
        }
    }

    /// Whether an impl has its own substitution interned.
    pub open spec fn has_own_substitution(self, impl_def_id: ImplDefId) -> bool {
        is_own_substitution(self, impl_def_id, self.own_substitution(impl_def_id))
    }

    /// An associated impl, by way of the cycle handler where it depends on itself.
    pub fn impl_impl_semantic_data(
        &mut self,
        impl_impl_def_id: ImplImplDefId,
        in_cycle: bool,
    ) -> (res: Maybe<ImplItemImplData>)
        requires
            old(self).wf(),
            old(self).definable(impl_impl_def_id.impl_def_id),
        ensures
            final(self).wf(),
            final(self).grown_from(*old(self)),
            ({
                let data = final(self).spec_impl_item_data(
                    impl_impl_def_id,
                    in_cycle || final(self).impl_item_in_cycle(impl_impl_def_id),
                );
                match res {
                    Ok(d) => data == Ok::<_, DiagnosticAdded>(d@)
                        && final(self).sizes().has_maybe_impl(d@.resolved_impl)
                        && final(self).has_own_substitution(impl_impl_def_id.impl_def_id),
                    Err(_) => data is Err,
                }
            }),
    {
        if self.facts.cycles.impl_items.contains(&impl_impl_def_id) {
            priv_impl_impl_semantic_data_cycle(self, impl_impl_def_id, in_cycle)
        } else {
            priv_impl_impl_semantic_data(self, impl_impl_def_id, in_cycle)
        }
    }
}

// --- Selectors ---

/// What is wrong with an associated impl.
pub fn impl_impl_def_semantic_diagnostics(
    db: &mut SemanticGroup,
    impl_impl_def_id: ImplImplDefId,
) -> (res: Diagnostics)
    requires
        old(db).wf(),
        old(db).definable(impl_impl_def_id.impl_def_id),
    ensures
        final(db).wf(),
        final(db).grown_from(*old(db)),
        match final(db).spec_impl_item_data(
            impl_impl_def_id,
            final(db).impl_item_in_cycle(impl_impl_def_id),
        ) {
            Ok(data) => res@ == data.diagnostics && final(db).has_own_substitution(
                impl_impl_def_id.impl_def_id,
            ),
            Err(_) => res@ == Seq::<DiagnosticView>::empty(),
        },
{
    match db.impl_impl_semantic_data(impl_impl_def_id, false) {
        Ok(data) => data.diagnostics,
        Err(_) => Diagnostics::new(),
    }
}

/// What name resolution keeps of an associated impl.
pub fn impl_impl_def_resolver_data(
    db: &mut SemanticGroup,
    impl_impl_def_id: ImplImplDefId,
) -> (res: Maybe<ResolverData>)
    requires
        old(db).wf(),
        old(db).definable(impl_impl_def_id.impl_def_id),
    ensures
        final(db).wf(),
        final(db).grown_from(*old(db)),
        res == match final(db).spec_impl_item_data(
            impl_impl_def_id,
            final(db).impl_item_in_cycle(impl_impl_def_id),
        ) {
            Ok(data) => Ok(data.resolver_data),
            Err(e) => Err(e),
        },
{
    match db.impl_impl_semantic_data(impl_impl_def_id, false) {
        Ok(data) => Ok(data.impl_data.resolver_data),
        Err(e) => Err(e),
    }
}

/// The trait impl that an associated impl implements.
pub fn impl_impl_def_trait_impl(db: &mut SemanticGroup, impl_impl_def_id: ImplImplDefId) -> (res:
    Maybe<TraitImplId>)
    requires
        old(db).wf(),
        old(db).definable(impl_impl_def_id.impl_def_id),
    ensures
        final(db).wf(),
        final(db).grown_from(*old(db)),
        res == match final(db).spec_impl_item_data(
            impl_impl_def_id,
            final(db).impl_item_in_cycle(impl_impl_def_id),
        ) {
            Ok(data) => data.trait_impl_id,
            Err(e) => Err(e),
        },
{
    match db.impl_impl_semantic_data(impl_impl_def_id, false) {
        Ok(data) => data.trait_impl_id,
        Err(e) => Err(e),
    }
}

/// The impl that an associated impl stands for.
pub fn impl_impl_def_impl(
    db: &mut SemanticGroup,
    impl_impl_def_id: ImplImplDefId,
    in_cycle: bool,
) -> (res: Maybe<ImplId>)
    requires
        old(db).wf(),
        old(db).definable(impl_impl_def_id.impl_def_id),
    ensures
        final(db).wf(),
        final(db).grown_from(*old(db)),
        res == final(db).spec_impl_item_impl(impl_impl_def_id, in_cycle),
        final(db).sizes().has_maybe_impl(res),
{
    match db.impl_impl_semantic_data(impl_impl_def_id, in_cycle) {
        Ok(data) => data.impl_data.resolved_impl,
        Err(e) => Err(e),
    }
}

/// The same where the associated impl depends on itself.
pub fn impl_impl_def_impl_cycle(
    db: &mut SemanticGroup,
    impl_impl_def_id: ImplImplDefId,
    _in_cycle: bool,
) -> (res: Maybe<ImplId>)
    requires
        old(db).wf(),
        old(db).definable(impl_impl_def_id.impl_def_id),
    ensures
        final(db).wf(),
        final(db).grown_from(*old(db)),
        res == final(db).spec_impl_item_impl(impl_impl_def_id, true),
        final(db).sizes().has_maybe_impl(res),
{
    match db.impl_impl_semantic_data(impl_impl_def_id, true) {
        Ok(data) => data.impl_data.resolved_impl,
        Err(e) => Err(e),
    }
}

// --- Computation ---

/// An associated impl, computed as one that depends on itself or not.
pub fn priv_impl_impl_semantic_data(
    db: &mut SemanticGroup,
    impl_impl_def_id: ImplImplDefId,
    in_cycle: bool,
) -> (res: Maybe<ImplItemImplData>)
    requires
        old(db).wf(),
        old(db).definable(impl_impl_def_id.impl_def_id),
    ensures
        final(db).wf(),
        final(db).grown_from(*old(db)),
        match res {
            Ok(data) => final(db).spec_impl_item_data(impl_impl_def_id, in_cycle) == Ok::<
                _,
                DiagnosticAdded,
            >(data@) && final(db).sizes().has_maybe_impl(data@.resolved_impl)
                && final(db).has_own_substitution(impl_impl_def_id.impl_def_id),
            Err(_) => final(db).spec_impl_item_data(impl_impl_def_id, in_cycle) is Err,
        },
{
    proof {
        reveal(crate::db::SemanticFacts::valid);
    }
    let ghost before = *db;
    let mut diagnostics = SemanticDiagnostics::new();
    let impl_def_id = impl_impl_def_id.impl_def_id;
    let impls = match impl_impls(db, impl_def_id) {
        Ok(impls) => impls,
        Err(e) => return Err(e),
    };
    let ast = match impls.get(&impl_impl_def_id) {
        Some(ast) => *ast,
        None => return Err(skip_diagnostic()),
    };
    let generic_params_data = match priv_impl_impl_def_generic_params_data(db, impl_impl_def_id) {
        Ok(data) => data,
        Err(e) => return Err(e),
    };
    let substitution = match impl_def_substitution(db, impl_def_id) {
        Ok(substitution) => substitution,
        Err(e) => return Err(e),
    };
    proof {
        lemma_definition_grown(before, *db, impl_def_id);
    }
    let facts = match db.facts.impl_items.get(&impl_impl_def_id) {
        Some(facts) => facts,
        None => return Err(skip_diagnostic()),
    };
    proof {
        assert(facts.valid(db.sizes()));
    }
    let outcome = if in_cycle {
        &facts.alias_in_cycle
    } else {
        &facts.alias
    };
    let alias = match outcome {
        Ok(alias) => alias,
        Err(e) => return Err(*e),
    };
    diagnostics.extend_outside(&alias.diagnostics);
    let trait_impl_id = validate_impl_item_impl(
        db,
        &mut diagnostics,
        impl_impl_def_id,
        &ast,
        alias.resolved_impl,
        &substitution,
    );
    let data = ImplItemImplData {
        impl_data: ImplAliasData {
            resolved_impl: alias.resolved_impl,
            generic_params: generic_params_data.generic_params,
            resolver_data: alias.resolver_data,
        },
        trait_impl_id,
        diagnostics: diagnostics.build(),
    };
    assert(data@ =~= db.spec_impl_item_data(impl_impl_def_id, in_cycle)->Ok_0);
    Ok(data)
}

/// An associated impl that depends on itself.
pub fn priv_impl_impl_semantic_data_cycle(
    db: &mut SemanticGroup,
    impl_impl_def_id: ImplImplDefId,
    _in_cycle: bool,
) -> (res: Maybe<ImplItemImplData>)
    requires
        old(db).wf(),
        old(db).definable(impl_impl_def_id.impl_def_id),
    ensures
        final(db).wf(),
        final(db).grown_from(*old(db)),
        match res {
            Ok(data) => final(db).spec_impl_item_data(impl_impl_def_id, true) == Ok::<
                _,
                DiagnosticAdded,
            >(data@) && final(db).sizes().has_maybe_impl(data@.resolved_impl)
                && final(db).has_own_substitution(impl_impl_def_id.impl_def_id),
            Err(_) => final(db).spec_impl_item_data(impl_impl_def_id, true) is Err,
        },
{
    priv_impl_impl_semantic_data(db, impl_impl_def_id, true)
}

/// The generic parameters of an associated impl, with what is wrong with them.
pub fn priv_impl_impl_def_generic_params_data(
    db: &SemanticGroup,
    impl_impl_def_id: ImplImplDefId,
) -> (res: Maybe<GenericParamsData>)
    requires
        db.wf(),
        db.definable(impl_impl_def_id.impl_def_id),
    ensures
        match res {
            Ok(data) => db.spec_impl_item_generics(impl_impl_def_id) matches Ok(g)
                && data.generic_params@ == g.generic_params@ && data.diagnostics@ == outside_view(
                g.diagnostics@,
            ) && data.resolver_data == g.resolver_data,
            Err(_) => db.spec_impl_item_generics(impl_impl_def_id) is Err,
        },
{
    match impl_impl_by_id(db, impl_impl_def_id) {
        Ok(Some(_)) => {},
        Ok(None) => return Err(skip_diagnostic()),
        Err(e) => return Err(e),
    }
    if let Err(e) = impl_def_resolver_data(db, impl_impl_def_id.impl_def_id) {
        return Err(e);
    }
    let generics = match db.facts.impl_items.get(&impl_impl_def_id) {
        Some(facts) => match &facts.generics {
            Ok(generics) => generics,
            Err(e) => return Err(*e),
        },
        None => return Err(skip_diagnostic()),
    };
    let mut diagnostics = SemanticDiagnostics::new();
    diagnostics.extend_outside(&generics.diagnostics);
    assert(diagnostics@ =~= outside_view(generics.diagnostics@));
    Ok(
        GenericParamsData {
            generic_params: copy_ids(&generics.generic_params),
            diagnostics: diagnostics.build(),
            resolver_data: generics.resolver_data,
        },
    )
}

/// Validates the impl item impl, and returns the matching trait impl id.
pub fn validate_impl_item_impl(
    db: &SemanticGroup,
    diagnostics: &mut SemanticDiagnostics,
    impl_impl_def_id: ImplImplDefId,
    impl_impl_ast: &ItemImplAlias,
    resolved_impl: Maybe<ImplId>,
    impl_def_substitution: &GenericSubstitution,
) -> (res: Maybe<TraitImplId>)
    requires
        db.wf(),
        db.sizes().has_maybe_impl(resolved_impl),
    ensures
        ({
            let outcome = impl_validation(
                *db,
                impl_impl_def_id,
                *impl_impl_ast,
                resolved_impl,
                impl_def_substitution@,
            );
            res == outcome.result && final(diagnostics)@ == old(diagnostics)@ + outcome.diagnostics
        }),
{
    let ghost before = diagnostics@;
    let ghost outcome = impl_validation(
        *db,
        impl_impl_def_id,
        *impl_impl_ast,
        resolved_impl,
        impl_def_substitution@,
    );
    assert(before + Seq::<DiagnosticView>::empty() =~= before);
    let impl_def_id = impl_impl_def_id.impl_def_id;
    let concrete_trait = match impl_def_concrete_trait(db, impl_def_id) {
        Ok(concrete_trait) => concrete_trait,
        Err(e) => return Err(e),
    };
    let trait_id = db.trait_long(concrete_trait).trait_id;
    let impl_name = impl_impl_def_id.name;
    let trait_impl_id = match db.trait_impl_by_name(trait_id, impl_name) {
        Ok(Some(trait_impl_id)) => trait_impl_id,
        Ok(None) => {
            let added = diagnostics.report(
                impl_impl_ast.stable_ptr,
                SemanticDiagnosticKind::ImplItemNotInTrait {
                    impl_def_id,
                    impl_item_name: impl_name,
                    trait_id,
                    item_kind: ItemKind::Impl,
                },
            );
            assert(diagnostics@ =~= before + outcome.diagnostics);
            return Err(added);
        },
        Err(e) => return Err(e),
    };

    // Generic parameters are not yet supported, make sure there are none.
    if impl_impl_ast.has_generic_params {
        diagnostics.report(
            impl_impl_ast.generic_params_ptr,
            SemanticDiagnosticKind::GenericsNotSupportedInItem {
                scope: ItemScope::Impl,
                item_kind: ItemKind::Impl,
            },
        );
    }
    let expected = match db.concrete_trait_impl_concrete_trait(
        ConcreteTraitImplId { concrete_trait, trait_impl_id },
    ) {
        Ok(t) => db.substitute_trait(impl_def_substitution, t),
        Err(e) => Err(e),
    };
    let actual = match resolved_impl {
        Ok(imp) => impl_concrete_trait(db, imp),
        Err(e) => Err(e),
    };
    if let Ok(actual_trt) = actual {
        if let Ok(expected_trt) = expected {
            if !db.conform_traits(actual_trt, expected_trt) {
                diagnostics.report(
                    impl_impl_ast.stable_ptr,
                    SemanticDiagnosticKind::TraitMismatch { expected_trt, actual_trt },
                );
            }
        }
    }
    assert(diagnostics@ =~= before + outcome.diagnostics);
    Ok(trait_impl_id)
}

// --- Implicit impls ---

/// An impl that an impl leaves to inference.
pub struct ImplicitImplImplData {
    pub resolved_impl: Maybe<ImplId>,
    pub trait_impl_id: TraitImplId,
    pub diagnostics: Diagnostics,
}

/// An impl that an impl leaves to inference, with its diagnostics as a sequence.
#[verifier::ext_equal]
pub struct ImplicitImplView {
    pub resolved_impl: Maybe<ImplId>,
    pub trait_impl_id: TraitImplId,
    pub diagnostics: Seq<DiagnosticView>,
}

impl View for ImplicitImplImplData {
    type V = ImplicitImplView;

    open spec fn view(&self) -> ImplicitImplView {
        ImplicitImplView {
            resolved_impl: self.resolved_impl,
            trait_impl_id: self.trait_impl_id,
            diagnostics: self.diagnostics@,
        }
    }
}

/// What comes out of looking for an impl of a trait.
pub open spec fn implicit_outcome(
    db: SemanticGroup,
    impl_def_id: ImplDefId,
    trait_impl_id: TraitImplId,
    concrete_trait_id: ConcreteTraitId,
) -> Outcome<ImplId> {
    let not_inferred = diagnostic(
        impl_def_id.stable_ptr,
        SemanticDiagnosticKind::ImplicitImplNotInferred { trait_impl_id, concrete_trait_id },
    );
    match lookup(
        db.facts.implicit_impls@,
        ImplicitImplQuestion { impl_def_id, concrete_trait_id },
    ) {
        Some(ImplicitImplOutcome::Found(imp)) => Outcome { diagnostics: seq![], result: Ok(imp) },
        Some(ImplicitImplOutcome::NotInferred(reasons)) => Outcome {
            diagnostics: seq![not_inferred] + outside_view(reasons@),
            result: Err(DiagnosticAdded),
        },
        Some(ImplicitImplOutcome::NotRewritten) => Outcome {
            diagnostics: seq![],
            result: Err(DiagnosticAdded),
        },
        None => Outcome { diagnostics: seq![not_inferred], result: Err(DiagnosticAdded) },
    }
}

impl SemanticGroup {
    /// The trait of which an impl leaves an impl to inference.
    pub open spec fn spec_implicit_trait(
        self,
        impl_def_id: ImplDefId,
        trait_impl_id: TraitImplId,
    ) -> Maybe<ConcreteTraitId> {
        match self.spec_impl_def_concrete_trait(impl_def_id) {
            Ok(concrete_trait) => expected_impl_trait(
                self,
                self.own_substitution(impl_def_id),
                concrete_trait,
                trait_impl_id,
            ),
            Err(e) => Err(e),
        }
    }

    /// An impl that an impl leaves to inference, computed as one that depends on itself or not.
    pub open spec fn spec_implicit_data(
        self,
        impl_def_id: ImplDefId,
        trait_impl_id: TraitImplId,
        in_cycle: bool,
    ) -> Maybe<ImplicitImplView> {
        if in_cycle {
            Ok(
                ImplicitImplView {
                    resolved_impl: Err(DiagnosticAdded),
                    trait_impl_id,
                    diagnostics: seq![
                        diagnostic(impl_def_id.stable_ptr, SemanticDiagnosticKind::ImplAliasCycle),
                    ],
                },
            )
        } else if self.spec_impl_ast(impl_def_id) is Err {
            Err(DiagnosticAdded)
        } else {
            match self.spec_implicit_trait(impl_def_id, trait_impl_id) {
                Ok(concrete_trait_id) => {
                    let outcome = implicit_outcome(
                        self,
                        impl_def_id,
                        trait_impl_id,
                        concrete_trait_id,
                    );
                    Ok(
                        ImplicitImplView {
                            resolved_impl: outcome.result,
                            trait_impl_id,
                            diagnostics: outcome.diagnostics,
                        },
                    )
                },
                Err(e) => Ok(
                    ImplicitImplView { resolved_impl: Err(e), trait_impl_id, diagnostics: seq![] },
                ),
            }
        }
    }

    /// Whether an impl that is left to inference depends on itself.
    pub open spec fn implicit_in_cycle(
        self,
        impl_def_id: ImplDefId,
        trait_impl_id: TraitImplId,
    ) -> bool {
        self.facts.cycles.implicit_impls@.contains(ImplicitImplId { impl_def_id, trait_impl_id })
    }

    /// The impl that is found for one that is left to inference.
    pub open spec fn spec_implicit_impl(
        self,
        impl_def_id: ImplDefId,
        trait_impl_id: TraitImplId,
        in_cycle: bool,
    ) -> Maybe<ImplId> {
        match self.spec_implicit_data(
            impl_def_id,
            trait_impl_id,
            in_cycle || self.implicit_in_cycle(impl_def_id, trait_impl_id),
        ) {
            Ok(data) => data.resolved_impl,
            Err(e) => Err(e),
        }
    }

    /// An impl that is left to inference, by way of the cycle handler where it depends on itself.
    pub fn implicit_impl_impl_semantic_data(
        &mut self,
        impl_def_id: ImplDefId,
        trait_impl_id: TraitImplId,
        in_cycle: bool,
    ) -> (res: Maybe<ImplicitImplImplData>)
        requires
            old(self).wf(),
        ensures
            final(self).wf(),
            final(self).grown_from(*old(self)),
            in_cycle || old(self).implicit_in_cycle(impl_def_id, trait_impl_id) ==> *final(self)
                == *old(self),
            ({
                let cyclic = in_cycle || final(self).implicit_in_cycle(impl_def_id, trait_impl_id);
                let data = final(self).spec_implicit_data(impl_def_id, trait_impl_id, cyclic);
                &&& data == old(self).spec_implicit_data(impl_def_id, trait_impl_id, cyclic)
                &&& match res {
                    Ok(d) => data == Ok::<_, DiagnosticAdded>(d@)
                        && final(self).sizes().has_maybe_impl(d@.resolved_impl) && (!cyclic
                        ==> final(self).has_own_substitution(impl_def_id)),
                    Err(_) => data is Err,
                }
            }),
    {
        let id = ImplicitImplId { impl_def_id, trait_impl_id };
        if self.facts.cycles.implicit_impls.contains(&id) {
            priv_implicit_impl_impl_semantic_data_cycle(self, impl_def_id, trait_impl_id, in_cycle)
        } else {
            priv_implicit_impl_impl_semantic_data(self, impl_def_id, trait_impl_id, in_cycle)
        }
    }
}

/// What is wrong with an impl that is left to inference.
pub fn implicit_impl_impl_semantic_diagnostics(
    db: &mut SemanticGroup,
    impl_def_id: ImplDefId,
    trait_impl_id: TraitImplId,
) -> (res: Diagnostics)
    requires
        old(db).wf(),
    ensures
        final(db).wf(),
        final(db).grown_from(*old(db)),
        ({
            let cyclic = final(db).implicit_in_cycle(impl_def_id, trait_impl_id);
            match final(db).spec_implicit_data(impl_def_id, trait_impl_id, cyclic) {
                Ok(data) => res@ == data.diagnostics && (!cyclic
                    ==> final(db).has_own_substitution(impl_def_id)),
                Err(_) => res@ == Seq::<DiagnosticView>::empty(),
            }
        }),
{
    match db.implicit_impl_impl_semantic_data(impl_def_id, trait_impl_id, false) {
        Ok(data) => data.diagnostics,
        Err(_) => Diagnostics::new(),
    }
}

/// The impl that is found for one that is left to inference.
pub fn implicit_impl_impl_impl(
    db: &mut SemanticGroup,
    impl_def_id: ImplDefId,
    trait_impl_id: TraitImplId,
    in_cycle: bool,
) -> (res: Maybe<ImplId>)
    requires
        old(db).wf(),
    ensures
        final(db).wf(),
        final(db).grown_from(*old(db)),
        res == final(db).spec_implicit_impl(impl_def_id, trait_impl_id, in_cycle),
        res == old(db).spec_implicit_impl(impl_def_id, trait_impl_id, in_cycle),
        final(db).sizes().has_maybe_impl(res),
{
    match db.implicit_impl_impl_semantic_data(impl_def_id, trait_impl_id, in_cycle) {
        Ok(data) => data.resolved_impl,
        Err(e) => Err(e),
    }
}

/// The same where the impl depends on itself.
pub fn implicit_impl_impl_impl_cycle(
    db: &mut SemanticGroup,
    impl_def_id: ImplDefId,
    trait_impl_id: TraitImplId,
    _in_cycle: bool,
) -> (res: Maybe<ImplId>)
    requires
        old(db).wf(),
    ensures
        final(db).wf(),
        final(db).grown_from(*old(db)),
        *final(db) == *old(db),
        res == final(db).spec_implicit_impl(impl_def_id, trait_impl_id, true),
        final(db).sizes().has_maybe_impl(res),
{
    match db.implicit_impl_impl_semantic_data(impl_def_id, trait_impl_id, true) {
        Ok(data) => data.resolved_impl,
        Err(e) => Err(e),
    }
}

/// Looks for an impl of a trait.
fn infer_implicit_impl(
    db: &SemanticGroup,
    diagnostics: &mut SemanticDiagnostics,
    impl_def_id: ImplDefId,
    trait_impl_id: TraitImplId,
    concrete_trait_id: ConcreteTraitId,
) -> (res: Maybe<ImplId>)
    requires
        db.wf(),
        old(diagnostics)@.len() == 0,
    ensures
        ({
            let outcome = implicit_outcome(*db, impl_def_id, trait_impl_id, concrete_trait_id);
            res == outcome.result && final(diagnostics)@ == outcome.diagnostics
        }),
        db.sizes().has_maybe_impl(res),
{
    proof {
        reveal(crate::db::SemanticFacts::valid);
    }
    let question = ImplicitImplQuestion { impl_def_id, concrete_trait_id };
    let ghost outcome = implicit_outcome(*db, impl_def_id, trait_impl_id, concrete_trait_id);
    let kind = SemanticDiagnosticKind::ImplicitImplNotInferred { trait_impl_id, concrete_trait_id };
    match db.facts.implicit_impls.get(&question) {
        Some(ImplicitImplOutcome::Found(imp)) => Ok(*imp),
        Some(ImplicitImplOutcome::NotInferred(reasons)) => {
            let added = diagnostics.report(impl_def_id.stable_ptr, kind);
            diagnostics.extend_outside(reasons);
            assert(diagnostics@ =~= outcome.diagnostics);
            Err(added)
        },
        Some(ImplicitImplOutcome::NotRewritten) => Err(skip_diagnostic()),
        None => {
            let added = diagnostics.report(impl_def_id.stable_ptr, kind);
            assert(diagnostics@ =~= outcome.diagnostics);
            Err(added)
        },
    }
}

/// An impl that is left to inference, computed as one that depends on itself or not.
pub fn priv_implicit_impl_impl_semantic_data(
    db: &mut SemanticGroup,
    impl_def_id: ImplDefId,
    trait_impl_id: TraitImplId,
    in_cycle: bool,
) -> (res: Maybe<ImplicitImplImplData>)
    requires
        old(db).wf(),
    ensures
        final(db).wf(),
        final(db).grown_from(*old(db)),
        in_cycle ==> *final(db) == *old(db),
        final(db).spec_implicit_data(impl_def_id, trait_impl_id, in_cycle) == old(
            db,
        ).spec_implicit_data(impl_def_id, trait_impl_id, in_cycle),
        match res {
            Ok(data) => final(db).spec_implicit_data(impl_def_id, trait_impl_id, in_cycle) == Ok::<
                _,
                DiagnosticAdded,
            >(data@) && final(db).sizes().has_maybe_impl(data@.resolved_impl) && (!in_cycle
                ==> final(db).has_own_substitution(impl_def_id)),
            Err(_) => final(db).spec_implicit_data(impl_def_id, trait_impl_id, in_cycle) is Err,
        },
{
    let mut diagnostics = SemanticDiagnostics::new();
    if in_cycle {
        let added = diagnostics.report(
            impl_def_id.stable_ptr,
            SemanticDiagnosticKind::ImplAliasCycle,
        );
        let data = ImplicitImplImplData {
            resolved_impl: Err(added),
            trait_impl_id,
            diagnostics: diagnostics.build(),
        };
        assert(data@ =~= db.spec_implicit_data(impl_def_id, trait_impl_id, in_cycle)->Ok_0);
        return Ok(data);
    }
    if let Err(e) = impl_def_resolver_data(db, impl_def_id) {
        return Err(e);
    }
    let ghost before = *db;
    let impl_def_substitution = match impl_def_substitution(db, impl_def_id) {
        Ok(substitution) => substitution,
        Err(e) => return Err(e),
    };
    proof {
        lemma_implicit_data_grown(before, *db, impl_def_id, trait_impl_id, in_cycle);
    }
    let concrete_trait_impl_concrete_trait = match impl_def_concrete_trait(db, impl_def_id) {
        Ok(concrete_trait) => match db.concrete_trait_impl_concrete_trait(
            ConcreteTraitImplId { concrete_trait, trait_impl_id },
        ) {
            Ok(t) => db.substitute_trait(&impl_def_substitution, t),
            Err(e) => Err(e),
        },
        Err(e) => Err(e),
    };
    let resolved_impl = match concrete_trait_impl_concrete_trait {
        Ok(concrete_trait_id) => infer_implicit_impl(
            db,
            &mut diagnostics,
            impl_def_id,
            trait_impl_id,
            concrete_trait_id,
        ),
        Err(e) => Err(e),
    };
    let data = ImplicitImplImplData {
        resolved_impl,
        trait_impl_id,
        diagnostics: diagnostics.build(),
    };
    assert(data@ =~= db.spec_implicit_data(impl_def_id, trait_impl_id, in_cycle)->Ok_0);
    Ok(data)
}

/// An impl that is left to inference and depends on itself.
pub fn priv_implicit_impl_impl_semantic_data_cycle(
    db: &mut SemanticGroup,
    impl_def_id: ImplDefId,
    trait_impl_id: TraitImplId,
    _in_cycle: bool,
) -> (res: Maybe<ImplicitImplImplData>)
    requires
        old(db).wf(),
    ensures
        final(db).wf(),
        final(db).grown_from(*old(db)),
        *final(db) == *old(db),
        match res {
            Ok(data) => final(db).spec_implicit_data(impl_def_id, trait_impl_id, true) == Ok::<
                _,
                DiagnosticAdded,
            >(data@) && final(db).sizes().has_maybe_impl(data@.resolved_impl),
            Err(_) => final(db).spec_implicit_data(impl_def_id, trait_impl_id, true) is Err,
        },
{
    priv_implicit_impl_impl_semantic_data(db, impl_def_id, trait_impl_id, true)
}

// --- Impl impls ---

impl SemanticGroup {
    /// Whether the item of an impl that has the name of a trait impl is an impl, and the impl is
    /// one of the trait.
    pub open spec fn provides_impl(self, impl_def_id: ImplDefId, id: TraitImplId) -> bool {
        &&& self.definable(impl_def_id)
        &&& self.implements(impl_def_id, id.trait_id)
        &&& self.spec_impl_item_by_name(impl_def_id, id.name) matches Ok(Some(item))
            ==> item is Impl
    }

    /// The impl that an impl gives for a trait impl: one that it leaves to inference, or one that
    /// it names.
    pub open spec fn spec_implized_impl(
        self,
        impl_def_id: ImplDefId,
        id: TraitImplId,
        in_cycle: bool,
    ) -> Maybe<ImplId> {
        match self.spec_is_implicit_impl_impl(impl_def_id, id) {
            Ok(true) => self.spec_implicit_impl(impl_def_id, id, in_cycle),
            Ok(false) => match self.spec_impl_impl_by_trait_impl(impl_def_id, id) {
                Ok(def) => self.spec_impl_item_impl(def, in_cycle),
                Err(e) => Err(e),
            },
            Err(e) => Err(e),
        }
    }
}

/// The impl that an impl gives for a trait impl.
pub fn impl_impl_implized_by_context(
    db: &mut SemanticGroup,
    impl_impl_id: ImplImplId,
    impl_def_id: ImplDefId,
    in_cycle: bool,
) -> (res: Maybe<ImplId>)
    requires
        old(db).wf(),
        old(db).provides_impl(impl_def_id, impl_impl_id.trait_impl_id),
    ensures
        final(db).wf(),
        final(db).grown_from(*old(db)),
        res == final(db).spec_implized_impl(impl_def_id, impl_impl_id.trait_impl_id, in_cycle),
        res == old(db).spec_implized_impl(impl_def_id, impl_impl_id.trait_impl_id, in_cycle),
        final(db).sizes().has_maybe_impl(res),
{
    let ghost before = *db;
    let trait_impl_id = impl_impl_id.trait_impl_id;
    let implicit = match is_implicit_impl_impl(db, impl_def_id, trait_impl_id) {
        Ok(implicit) => implicit,
        Err(e) => return Err(e),
    };
    if implicit {
        let res = implicit_impl_impl_impl(db, impl_def_id, trait_impl_id, in_cycle);
        proof {
            lemma_definition_grown(before, *db, impl_def_id);
        }
        return res;
    }
    proof {
        lemma_item_belongs(*db, impl_def_id, trait_impl_id.name);
    }
    match impl_impl_by_trait_impl(db, impl_def_id, trait_impl_id) {
        Ok(impl_impl_def_id) => {
            let res = impl_impl_def_impl(db, impl_impl_def_id, in_cycle);
            proof {
                lemma_definition_grown(before, *db, impl_def_id);
            }
            res
        },
        Err(e) => Err(e),
    }
}

/// The same where the impl depends on itself.
pub fn impl_impl_implized_by_context_cycle(
    db: &mut SemanticGroup,
    impl_impl_id: ImplImplId,
    impl_def_id: ImplDefId,
    _in_cycle: bool,
) -> (res: Maybe<ImplId>)
    requires
        old(db).wf(),
        old(db).provides_impl(impl_def_id, impl_impl_id.trait_impl_id),
    ensures
        final(db).wf(),
        final(db).grown_from(*old(db)),
        res == final(db).spec_implized_impl(impl_def_id, impl_impl_id.trait_impl_id, true),
        final(db).sizes().has_maybe_impl(res),
{
    impl_impl_implized_by_context(db, impl_impl_id, impl_def_id, true)
}

/// Whether the impl item of a concrete impl can be looked up.
pub open spec fn impl_impl_ready(db: SemanticGroup, id: ImplImplId) -> bool {
    &&& db.has_impl(id.impl_id)
    &&& db.spec_impl_long(id.impl_id) matches ImplLongId::Concrete(c) ==> db.provides_impl(
        db.spec_concrete_impl_long(c).impl_def_id,
        id.trait_impl_id,
    )
}

/// The impl that an impl item of a concrete impl stands for.
pub open spec fn concrete_implized_impl(
    db: SemanticGroup,
    id: ImplImplId,
    c: ConcreteImplId,
    in_cycle: bool,
) -> Maybe<ImplId> {
    match (
        db.spec_implized_impl(
            db.spec_concrete_impl_long(c).impl_def_id,
            id.trait_impl_id,
            in_cycle,
        ),
        db.spec_impl_substitution(id.impl_id, c),
    ) {
        (Ok(imp), Ok(s)) => db.spec_substitute_impl(s, imp),
        _ => Err(DiagnosticAdded),
    }
}

/// The impl that an impl item stands for is interned.
proof fn lemma_implized_impl_interned(
    db: SemanticGroup,
    id: ImplImplId,
    c: ConcreteImplId,
    in_cycle: bool,
)
    requires
        db.wf(),
    ensures
        db.sizes().has_maybe_impl(concrete_implized_impl(db, id, c, in_cycle)),
{
    reveal(crate::db::SemanticFacts::valid);
}

/// The impl that an impl item stands for: that of a concrete impl is looked up and substituted,
/// that of any other impl stays an item of the impl.
pub open spec fn is_implized_impl(
    db: SemanticGroup,
    id: ImplImplId,
    in_cycle: bool,
    res: Maybe<ImplId>,
) -> bool {
    match db.spec_impl_long(id.impl_id) {
        ImplLongId::Concrete(c) => res == concrete_implized_impl(db, id, c, in_cycle),
        _ => match db.spec_substitute_impl_impl(substitution_from_impl(id.impl_id), id) {
            Ok(r) => res matches Ok(imp) && db.has_impl(imp) && db.spec_impl_long(imp)
                == ImplLongId::ImplImpl(r),
            Err(_) => res is Err,
        },
    }
}

/// The impl that an impl item stands for.
pub fn impl_impl_concrete_implized(db: &mut SemanticGroup, impl_impl_id: ImplImplId) -> (res: Maybe<
    ImplId,
>)
    requires
        old(db).wf(),
        impl_impl_ready(*old(db), impl_impl_id),
    ensures
        final(db).wf(),
        final(db).grown_from(*old(db)),
        is_implized_impl(*final(db), impl_impl_id, false, res),
        final(db).sizes().has_maybe_impl(res),
        old(db).spec_impl_long(impl_impl_id.impl_id) matches ImplLongId::Concrete(c) ==> res
            == concrete_implized_impl(*old(db), impl_impl_id, c, false) && old(
            db,
        ).sizes().has_maybe_impl(res),
{
    impl_impl_concrete_implized_ex(db, impl_impl_id, false)
}

/// The same where the impl item depends on itself.
pub fn impl_impl_concrete_implized_cycle(
    db: &mut SemanticGroup,
    impl_impl_id: ImplImplId,
) -> (res: Maybe<ImplId>)
    requires
        old(db).wf(),
        impl_impl_ready(*old(db), impl_impl_id),
    ensures
        final(db).wf(),
        final(db).grown_from(*old(db)),
        is_implized_impl(*final(db), impl_impl_id, true, res),
        final(db).sizes().has_maybe_impl(res),
{
    impl_impl_concrete_implized_ex(db, impl_impl_id, true)
}

/// The impl that an impl item stands for.
fn impl_impl_concrete_implized_ex(
    db: &mut SemanticGroup,
    impl_impl_id: ImplImplId,
    in_cycle: bool,
) -> (res: Maybe<ImplId>)
    requires
        old(db).wf(),
        impl_impl_ready(*old(db), impl_impl_id),
    ensures
        final(db).wf(),
        final(db).grown_from(*old(db)),
        is_implized_impl(*final(db), impl_impl_id, in_cycle, res),
        final(db).sizes().has_maybe_impl(res),
        old(db).spec_impl_long(impl_impl_id.impl_id) matches ImplLongId::Concrete(c) ==> res
            == concrete_implized_impl(*old(db), impl_impl_id, c, in_cycle) && old(
            db,
        ).sizes().has_maybe_impl(res),
{
    let ghost before = *db;
    let impl_id = impl_impl_id.impl_id;
    proof {
        assert(db.interned@.impl_parts(impl_id.0 as int, db.interned@.impls[impl_id.0 as int]));
    }
    if let ImplLongId::Concrete(concrete_impl) = db.impl_long(impl_id) {
        proof {
            lemma_implized_impl_interned(before, impl_impl_id, concrete_impl, in_cycle);
        }
        let impl_def_id = concrete_impl.impl_def_id(db);
        let implized = impl_impl_implized_by_context(db, impl_impl_id, impl_def_id, in_cycle);
        assert(db.spec_impl_long(impl_id) == before.spec_impl_long(impl_id));
        assert(db.spec_concrete_impl_long(concrete_impl) == before.spec_concrete_impl_long(
            concrete_impl,
        ));
        let imp = match implized {
            Ok(imp) => imp,
            Err(e) => return Err(e),
        };
        return match db.impl_substitution(impl_id, concrete_impl) {
            Ok(substitution) => db.substitute_impl(&substitution, imp),
            Err(e) => Err(e),
        };
    }
    let substitution = GenericSubstitution::from_impl(impl_id);
    let id = match db.substitute_impl_impl(&substitution, impl_impl_id) {
        Ok(id) => id,
        Err(e) => return Err(e),
    };
    let res = db.intern_impl(ImplLongId::ImplImpl(id));
    assert(db.spec_impl_long(impl_id) == before.spec_impl_long(impl_id));
    Ok(res)
}

// --- Growth ---

/// What is known of an associated impl stays as more values are interned.
pub proof fn lemma_impl_item_data_grown(
    before: SemanticGroup,
    after: SemanticGroup,
    id: ImplImplDefId,
    in_cycle: bool,
)
    requires
        before.wf(),
        after.wf(),
        before.definable(id.impl_def_id),
        after.grown_from(before),
        after.own_substitution(id.impl_def_id) == before.own_substitution(id.impl_def_id),
    ensures
        after.spec_impl_item_data(id, in_cycle) == before.spec_impl_item_data(id, in_cycle),
{
    reveal(crate::db::SemanticFacts::valid);
    lemma_definition_grown(before, after, id.impl_def_id);
    if let Ok((f, ast)) = before.spec_impl_item(id) {
        assert(f.valid(before.sizes()));
        let alias = if in_cycle {
            f.alias_in_cycle
        } else {
            f.alias
        };
        if let Ok(alias) = alias {
            if let Ok(imp) = alias.resolved_impl {
                lemma_impl_trait_grown(before, after, imp);
            }
        }
    }
}

/// What is known of an impl that is left to inference stays as more values are interned.
pub proof fn lemma_implicit_data_grown(
    before: SemanticGroup,
    after: SemanticGroup,
    impl_def_id: ImplDefId,
    trait_impl_id: TraitImplId,
    in_cycle: bool,
)
    requires
        before.wf(),
        after.wf(),
        after.grown_from(before),
        after.own_substitution(impl_def_id) == before.own_substitution(impl_def_id) || in_cycle,
    ensures
        after.spec_implicit_data(impl_def_id, trait_impl_id, in_cycle)
            == before.spec_implicit_data(impl_def_id, trait_impl_id, in_cycle),
{
}

// --- Laws ---

/// An impl that is left to inference and depends on itself is not found, and that is reported at
/// the impl.
pub proof fn law_cyclic_implicit_impl(
    db: SemanticGroup,
    impl_def_id: ImplDefId,
    trait_impl_id: TraitImplId,
    in_cycle: bool,
)
    requires
        in_cycle || db.implicit_in_cycle(impl_def_id, trait_impl_id),
    ensures
        db.spec_implicit_impl(impl_def_id, trait_impl_id, in_cycle) is Err,
        db.spec_implicit_data(impl_def_id, trait_impl_id, true)->Ok_0.diagnostics == seq![
            diagnostic(impl_def_id.stable_ptr, SemanticDiagnosticKind::ImplAliasCycle),
        ],
{
}

/// An associated impl of the very trait that it has to implement is never reported to mismatch.
pub proof fn law_same_trait_never_mismatches(
    db: SemanticGroup,
    ast: ItemImplAlias,
    concrete_trait: Maybe<ConcreteTraitId>,
)
    ensures
        mismatch_diagnostics(db, ast, concrete_trait, concrete_trait).len() == 0,
{
}

/// The trait that an impl asks of the impl for a trait impl: the one that is recorded for the trait
/// impl, with the parameters of the impl substituted.
pub open spec fn asked_trait(
    db: SemanticGroup,
    impl_def_id: ImplDefId,
    concrete_trait: ConcreteTraitId,
    trait_impl_id: TraitImplId,
) -> Maybe<ConcreteTraitId> {
    match lookup(
        db.facts.trait_impl_traits@,
        ConcreteTraitImplId { concrete_trait, trait_impl_id },
    ) {
        Some(Ok(t)) => made_of(
            db.facts.substituted_traits@,
            (db.own_substitution(impl_def_id), t),
            t,
        ),
        _ => Err(DiagnosticAdded),
    }
}

/// An associated impl is checked against the trait. It implements the trait impl of its name; where
/// the trait has none that is reported. Where it has one, generic parameters are reported, and so is
/// that the impl is of another trait than the one asked for, unless the two conform. What another
/// stage reports of the alias is passed on, and nothing else is reported.
pub proof fn law_associated_impls_are_checked(
    db: SemanticGroup,
    id: ImplImplDefId,
    in_cycle: bool,
    concrete_trait: ConcreteTraitId,
    impls: Seq<(SmolStrId, TraitImplId)>,
    f: ImplItemFacts,
    alias: ImplAliasOutcome,
    ast: ItemImplAlias,
    d: OutsideDiagnostic,
)
    requires
        db.spec_impl_def_concrete_trait(id.impl_def_id) == Ok::<_, DiagnosticAdded>(concrete_trait),
        lookup(
            db.facts.traits@,
            db.interned@.concrete_traits[concrete_trait.0 as int].trait_id,
        ) matches Some(t) && (t.impls matches Ok(table) && table@ == impls),
        db.spec_definition(id.impl_def_id) matches Ok(def) && lookup(def.impls, id) == Some(ast),
        lookup(db.facts.impl_items@, id) == Some(f),
        f.generics is Ok,
        (if in_cycle {
            f.alias_in_cycle
        } else {
            f.alias
        }) == Ok::<_, DiagnosticAdded>(alias),
    ensures
        db.spec_impl_item_data(id, in_cycle) matches Ok(data) && {
            let known = has_key(impls, id.name);
            let asked = asked_trait(db, id.impl_def_id, concrete_trait, lookup(impls, id.name)->0);
            let given = impl_trait(db, alias.resolved_impl->Ok_0);
            let differs = alias.resolved_impl is Ok && given is Ok && asked is Ok && given->Ok_0
                != asked->Ok_0 && !db.facts.conforming_traits@.contains(
                TraitPair { actual: given->Ok_0, expected: asked->Ok_0 },
            );
            let not_in_trait: DiagnosticView = SemanticDiagnostic {
                stable_ptr: ast.stable_ptr,
                kind: SemanticDiagnosticKind::ImplItemNotInTrait {
                    impl_def_id: id.impl_def_id,
                    impl_item_name: id.name,
                    trait_id: db.interned@.concrete_traits[concrete_trait.0 as int].trait_id,
                    item_kind: ItemKind::Impl,
                },
            };
            let with_generics: DiagnosticView = SemanticDiagnostic {
                stable_ptr: ast.generic_params_ptr,
                kind: SemanticDiagnosticKind::GenericsNotSupportedInItem {
                    scope: ItemScope::Impl,
                    item_kind: ItemKind::Impl,
                },
            };
            let mismatch: DiagnosticView = SemanticDiagnostic {
                stable_ptr: ast.stable_ptr,
                kind: SemanticDiagnosticKind::TraitMismatch {
                    expected_trt: asked->Ok_0,
                    actual_trt: given->Ok_0,
                },
            };
            &&& data.resolved_impl == alias.resolved_impl
            &&& data.generic_params == f.generics->Ok_0.generic_params@
            &&& data.resolver_data == alias.resolver_data
            &&& known ==> data.trait_impl_id == Ok::<_, DiagnosticAdded>(lookup(impls, id.name)->0)
            &&& !known ==> data.trait_impl_id is Err
            &&& data.diagnostics.contains(not_in_trait) <==> !known
            &&& data.diagnostics.contains(with_generics) <==> known && ast.has_generic_params
            &&& data.diagnostics.contains(mismatch) <==> known && differs
            &&& data.diagnostics.contains(passed_on(d)) <==> alias.diagnostics@.contains(d)
            &&& data.diagnostics.len() == alias.diagnostics@.len() + (if !known {
                1int
            } else {
                (if ast.has_generic_params {
                    1int
                } else {
                    0
                }) + (if differs {
                    1int
                } else {
                    0
                })
            })
        },
{
    let data = db.spec_impl_item_data(id, in_cycle)->Ok_0;
    let s = db.own_substitution(id.impl_def_id);
    let own = impl_validation(db, id, ast, alias.resolved_impl, s).diagnostics;
    let passed = outside_view(alias.diagnostics@);
    lemma_outside_members(alias.diagnostics@, d);
    assert forall|x: DiagnosticView| #[trigger] data.diagnostics.contains(x) <==> own.contains(x)
        || passed.contains(x) by {
        lemma_concat_members(passed, own, x);
    }
    if has_key(impls, id.name) {
        let generics = report_if(
            ast.has_generic_params,
            ast.generic_params_ptr,
            SemanticDiagnosticKind::GenericsNotSupportedInItem {
                scope: ItemScope::Impl,
                item_kind: ItemKind::Impl,
            },
        );
        let other = mismatch_diagnostics(
            db,
            ast,
            resolved_impl_trait(db, alias.resolved_impl),
            expected_impl_trait(db, s, concrete_trait, lookup(impls, id.name)->0),
        );
        assert(own == generics + other);
        assert forall|x: DiagnosticView| #[trigger] own.contains(x) <==> generics.contains(x)
            || other.contains(x) by {
            lemma_concat_members(generics, other, x);
        }
        if generics.len() > 0 {
            assert(generics.contains(generics[0]));
        }
        if other.len() > 0 {
            assert(other.contains(other[0]));
        }
    } else {
        assert(own.contains(own[0]));
    }
}

/// An impl that is left to inference is the one that inference finds for the trait asked for. Where
/// it finds none that is reported at the impl, with what inference gives as its reasons; so is that
/// the impl depends on itself.
pub proof fn law_implicit_impls_are_inferred(
    db: SemanticGroup,
    impl_def_id: ImplDefId,
    trait_impl_id: TraitImplId,
    concrete_trait: ConcreteTraitId,
    asked: ConcreteTraitId,
    in_cycle: bool,
)
    requires
        db.spec_impl_def_concrete_trait(impl_def_id) == Ok::<_, DiagnosticAdded>(concrete_trait),
        lookup(db.facts.impl_defs@, impl_def_id) matches Some(f) && f.ast matches Ok(Some(_)),
        asked_trait(db, impl_def_id, concrete_trait, trait_impl_id) == Ok::<_, DiagnosticAdded>(
            asked,
        ),
    ensures
        db.spec_implicit_data(impl_def_id, trait_impl_id, in_cycle) matches Ok(data) && {
            let not_inferred: DiagnosticView = SemanticDiagnostic {
                stable_ptr: impl_def_id.stable_ptr,
                kind: SemanticDiagnosticKind::ImplicitImplNotInferred {
                    trait_impl_id,
                    concrete_trait_id: asked,
                },
            };
            let cycle: DiagnosticView = SemanticDiagnostic {
                stable_ptr: impl_def_id.stable_ptr,
                kind: SemanticDiagnosticKind::ImplAliasCycle,
            };
            let question = ImplicitImplQuestion { impl_def_id, concrete_trait_id: asked };
            &&& data.trait_impl_id == trait_impl_id
            &&& if in_cycle {
                data.resolved_impl is Err && data.diagnostics == seq![cycle]
            } else {
                match lookup(db.facts.implicit_impls@, question) {
                    Some(ImplicitImplOutcome::Found(imp)) => data.resolved_impl == Ok::<
                        _,
                        DiagnosticAdded,
                    >(imp) && data.diagnostics.len() == 0,
                    Some(ImplicitImplOutcome::NotInferred(reasons)) => {
                        &&& data.resolved_impl is Err
                        &&& data.diagnostics.len() == 1 + reasons@.len()
                        &&& data.diagnostics[0] == not_inferred
                        &&& forall|i: int|
                            0 <= i < reasons@.len() ==> data.diagnostics[i + 1] == passed_on(
                                #[trigger] reasons@[i],
                            )
                    },
                    Some(ImplicitImplOutcome::NotRewritten) => data.resolved_impl is Err
                        && data.diagnostics.len() == 0,
                    None => data.resolved_impl is Err && data.diagnostics == seq![not_inferred],
                }
            }
        },
{
}

/// Whether an impl names the impl for a trait impl: the last item of that name in its body is an
/// impl, and that is recorded to stand for `resolved`.
pub open spec fn resolves_impl(
    db: SemanticGroup,
    impl_def_id: ImplDefId,
    name: SmolStrId,
    in_cycle: bool,
    resolved: Maybe<ImplId>,
) -> bool {
    exists|ast: ItemImpl, i: int| #[trigger]
        is_written(db, impl_def_id, ast) && #[trigger] is_last_of_name(written_items(ast), i) && (
        written_items(ast)[i] matches ImplItem::Impl(t, _) && t.name == name && {
            let id = ImplImplDefId { impl_def_id, name, stable_ptr: t.stable_ptr };
            lookup(db.facts.impl_items@, id) matches Some(f) && f.generics is Ok && (if in_cycle
                || db.facts.cycles.impl_items@.contains(id) {
                f.alias_in_cycle
            } else {
                f.alias
            } matches Ok(alias) && alias.resolved_impl == resolved)
        })
}

/// The impl that an impl gives for a trait impl is the one that its body names.
pub proof fn law_impls_give_the_impls_they_name(
    db: SemanticGroup,
    impl_def_id: ImplDefId,
    id: TraitImplId,
    in_cycle: bool,
    resolved: Maybe<ImplId>,
)
    requires
        db.spec_definition(impl_def_id) is Ok,
        db.spec_impl_def_trait(impl_def_id) is Ok,
        resolves_impl(db, impl_def_id, id.name, in_cycle, resolved),
    ensures
        db.spec_implized_impl(impl_def_id, id, in_cycle) == resolved,
{
    let (ast, i) = choose|ast: ItemImpl, i: int| #[trigger]
        is_written(db, impl_def_id, ast) && #[trigger] is_last_of_name(written_items(ast), i) && (
        written_items(ast)[i] matches ImplItem::Impl(t, _) && t.name == id.name && {
            let id = ImplImplDefId { impl_def_id, name: id.name, stable_ptr: t.stable_ptr };
            lookup(db.facts.impl_items@, id) matches Some(f) && f.generics is Ok && (if in_cycle
                || db.facts.cycles.impl_items@.contains(id) {
                f.alias_in_cycle
            } else {
                f.alias
            } matches Ok(alias) && alias.resolved_impl == resolved)
        });
    let d = db.spec_definition(impl_def_id)->Ok_0;
    law_definitions_list_what_is_written(db, impl_def_id, ast, d);
    assert(is_last_of_id(impl_def_id, written_items(ast), i));
    law_definitions_follow_the_trait(
        db,
        impl_def_id,
        ast,
        db.spec_impl_def_concrete_trait(impl_def_id)->Ok_0,
    );
    if has_key(d.implicit_impls, id.name) {
        let k = choose|k: int|
            0 <= k < d.implicit_impls.len() && (#[trigger] d.implicit_impls[k]).0 == id.name;
        assert(d.implicit_impls.contains(d.implicit_impls[k]));
        assert(names_item(written_items(ast), id.name));
    }
}

/// For a trait impl of its trait that no item of its body has the name of, an impl gives the one
/// that is found by inference.
pub proof fn law_unnamed_impls_are_left_to_inference(
    db: SemanticGroup,
    impl_def_id: ImplDefId,
    id: TraitImplId,
    ast: ItemImpl,
    concrete_trait: ConcreteTraitId,
    in_cycle: bool,
)
    requires
        db.spec_definition(impl_def_id) is Ok,
        db.spec_impl_def_trait(impl_def_id) is Ok,
        is_written(db, impl_def_id, ast),
        !names_item(written_items(ast), id.name),
        db.spec_impl_def_concrete_trait(impl_def_id) == Ok::<_, DiagnosticAdded>(concrete_trait),
        lookup(
            db.facts.traits@,
            db.interned@.concrete_traits[concrete_trait.0 as int].trait_id,
        ) matches Some(t) && (t.impls matches Ok(table) && table@.contains((id.name, id))),
    ensures
        db.spec_implized_impl(impl_def_id, id, in_cycle) == match db.spec_implicit_data(
            impl_def_id,
            id,
            in_cycle || db.facts.cycles.implicit_impls@.contains(
                ImplicitImplId { impl_def_id, trait_impl_id: id },
            ),
        ) {
            Ok(data) => data.resolved_impl,
            Err(e) => Err(e),
        },
{
    let d = db.spec_definition(impl_def_id)->Ok_0;
    law_definitions_follow_the_trait(db, impl_def_id, ast, concrete_trait);
    assert(d.implicit_impls.contains((id.name, id)));
    assert(has_key(d.implicit_impls, id.name));
}

/// The impl for a trait impl of a concrete impl is what the substitution of the impl makes of the
/// impl that its definition gives. Where nothing is recorded for the substitution and that impl, it
/// is that impl.
pub proof fn law_impls_of_concrete_impls_are_substituted(
    db: SemanticGroup,
    id: ImplImplId,
    c: ConcreteImplId,
    s: SubstitutionView,
    given: ImplId,
    in_cycle: bool,
    res: Maybe<ImplId>,
)
    requires
        db.interned@.impls[id.impl_id.0 as int] == ImplLongId::Concrete(c),
        db.spec_implized_impl(
            db.interned@.concrete_impls[c.0 as int].impl_def_id,
            id.trait_impl_id,
            in_cycle,
        ) == Ok::<_, DiagnosticAdded>(given),
        db.spec_impl_substitution(id.impl_id, c) == Ok::<_, DiagnosticAdded>(s),
        is_implized_impl(db, id, in_cycle, res),
    ensures
        res == made_of(db.facts.substituted_impls@, (s, given), given),
{
}

/// The impl for a trait impl of an impl that is not concrete stays an item of that impl, as far as
/// the impl is known.
pub proof fn law_impls_of_other_impls(
    db: SemanticGroup,
    id: ImplImplId,
    in_cycle: bool,
    res: Maybe<ImplId>,
)
    requires
        !(db.interned@.impls[id.impl_id.0 as int] is Concrete),
        is_implized_impl(db, id, in_cycle, res),
    ensures
        ({
            let s = SubstitutionView { param_to_arg: seq![], self_impl: Some(id.impl_id) };
            match made_of(db.facts.substituted_impl_impls@, (s, id), id) {
                Ok(r) => res matches Ok(imp) && imp.0 < db.interned@.impls.len()
                    && db.interned@.impls[imp.0 as int] == ImplLongId::ImplImpl(r),
                Err(_) => res is Err,
            }
        }),
{
}

} // verus!
