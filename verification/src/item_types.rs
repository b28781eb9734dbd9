//! The associated types of an impl.

use vstd::prelude::*;

use crate::collections::{copy_ids, has_key, lemma_concat_members, lookup};
use crate::db::SemanticGroup;
use crate::declaration::{impl_def_concrete_trait, impl_def_resolver_data, GenericParamsData};
use crate::definition::lemma_definition_grown;
use crate::diagnostics::{
    diagnostic, lemma_outside_members, outside_view, passed_on, skip_diagnostic, DiagnosticAdded,
    DiagnosticView, Diagnostics, ItemKind, ItemScope, Maybe, OutsideDiagnostic, SemanticDiagnostic,
    SemanticDiagnosticKind, SemanticDiagnostics,
};
use crate::facts::{AliasGenerics, ResolverData, TypeAliasOutcome, TypeItemFacts};
use crate::ids::{Attribute, ConcreteTraitId, ImplTypeDefId, SmolStrId, TraitTypeId, TypeId};
use crate::model::GenericParam;
use crate::selectors::{impl_type_by_id, impl_types};
use crate::signatures::{report_if, Outcome};
use crate::syntax::ItemTypeAlias;

verus! {

/// What a type alias stands for.
pub struct TypeAliasData {
    pub resolved_type: Maybe<TypeId>,
    pub generic_params: Vec<GenericParam>,
    pub attributes: Vec<Attribute>,
    pub resolver_data: ResolverData,
}

/// An associated type of an impl.
pub struct ImplItemTypeData {
    pub type_alias_data: TypeAliasData,
    /// The trait type that the type implements.
    pub trait_type_id: Maybe<TraitTypeId>,
    /// The diagnostics of the type, including the ones for the type alias itself.
    pub diagnostics: Diagnostics,
}

/// An associated type of an impl, with its lists as sequences.
#[verifier::ext_equal]
pub struct TypeItemView {
    pub resolved_type: Maybe<TypeId>,
    pub generic_params: Seq<GenericParam>,
    pub attributes: Seq<Attribute>,
    pub resolver_data: ResolverData,
    pub trait_type_id: Maybe<TraitTypeId>,
    pub diagnostics: Seq<DiagnosticView>,
}

impl View for ImplItemTypeData {
    type V = TypeItemView;

    open spec fn view(&self) -> TypeItemView {
        TypeItemView {
            resolved_type: self.type_alias_data.resolved_type,
            generic_params: self.type_alias_data.generic_params@,
            attributes: self.type_alias_data.attributes@,
            resolver_data: self.type_alias_data.resolver_data,
            trait_type_id: self.trait_type_id,
            diagnostics: self.diagnostics@,
        }
    }
}

/// The trait type that an associated type implements, and what is wrong with it.
pub open spec fn type_validation(
    db: SemanticGroup,
    impl_type_def_id: ImplTypeDefId,
    ast: ItemTypeAlias,
) -> Outcome<TraitTypeId> {
    let impl_def_id = impl_type_def_id.impl_def_id;
    match db.spec_impl_def_concrete_trait(impl_def_id) {
        Err(e) => Outcome { diagnostics: seq![], result: Err(e) },
        Ok(concrete_trait) => {
            let trait_id = db.spec_trait_long(concrete_trait).trait_id;
            match db.spec_trait_type_by_name(trait_id, impl_type_def_id.name) {
                Err(e) => Outcome { diagnostics: seq![], result: Err(e) },
                Ok(None) => Outcome {
                    diagnostics: seq![
                        diagnostic(
                            ast.stable_ptr,
                            SemanticDiagnosticKind::ImplItemNotInTrait {
                                impl_def_id,
                                impl_item_name: impl_type_def_id.name,
                                trait_id,
                                item_kind: ItemKind::Type,
                            },
                        ),
                    ],
                    result: Err(DiagnosticAdded),
                },
                Ok(Some(trait_type_id)) => Outcome {
                    diagnostics: report_if(
                        ast.has_generic_params,
                        ast.generic_params_ptr,
                        SemanticDiagnosticKind::GenericsNotSupportedInItem {
                            scope: ItemScope::Impl,
                            item_kind: ItemKind::Type,
                        },
                    ),
                    result: Ok(trait_type_id),
                },
            }
        },
    }
}

impl SemanticGroup {
    /// The facts about an associated type, and its syntax, where its impl has a definition.
    pub open spec fn spec_type_item(self, id: ImplTypeDefId) -> Maybe<
        (TypeItemFacts, ItemTypeAlias),
    > {
        match (self.spec_definition(id.impl_def_id), lookup(self.facts.type_items@, id)) {
            (Ok(d), Some(f)) => match lookup(d.types, id) {
                Some(ast) => Ok((f, ast)),
                None => Err(DiagnosticAdded),
            },
            _ => Err(DiagnosticAdded),
        }
    }

    /// The generic parameters of an associated type.
    pub open spec fn spec_type_generics(self, id: ImplTypeDefId) -> Maybe<AliasGenerics> {
        match self.spec_type_item(id) {
            Ok((f, _)) => f.generics,
            Err(e) => Err(e),
        }
    }

    /// An associated type, computed as one that depends on itself or not.
    pub open spec fn spec_type_data(self, id: ImplTypeDefId, in_cycle: bool) -> Maybe<
        TypeItemView,
    > {
        match self.spec_type_item(id) {
            Ok((f, ast)) => match (
                f.generics,
                if in_cycle {
                    f.alias_in_cycle
                } else {
                    f.alias
                },
            ) {
                (Ok(generics), Ok(alias)) => {
                    let validation = type_validation(self, id, ast);
                    Ok(
                        TypeItemView {
                            resolved_type: alias.resolved_type,
                            generic_params: generics.generic_params@,
                            attributes: alias.attributes@,
                            resolver_data: alias.resolver_data,
                            trait_type_id: validation.result,
                            diagnostics: validation.diagnostics + outside_view(alias.diagnostics@),
                        },
                    )
                },
                _ => Err(DiagnosticAdded),
            },
            Err(e) => Err(e),
        }
    }

    /// Whether an associated type depends on itself.
    pub open spec fn type_in_cycle(self, id: ImplTypeDefId) -> bool {
        self.facts.cycles.type_items@.contains(id)
    }

    /// The type that an associated type stands for.
    pub open spec fn spec_resolved_type(self, id: ImplTypeDefId) -> Maybe<TypeId> {
        match self.spec_type_data(id, self.type_in_cycle(id)) {
            Ok(data) => data.resolved_type,
            Err(e) => Err(e),
        }
    }

    /// An associated type, by way of the cycle handler where it depends on itself.
    pub fn impl_type_semantic_data(&self, impl_type_def_id: ImplTypeDefId, in_cycle: bool) -> (res:
        Maybe<ImplItemTypeData>)
        requires
            self.wf(),
            self.definable(impl_type_def_id.impl_def_id),
        ensures
            match res {
                Ok(data) => self.spec_type_data(
                    impl_type_def_id,
                    in_cycle || self.type_in_cycle(impl_type_def_id),
                ) == Ok::<_, DiagnosticAdded>(data@) && self.sizes().has_maybe_type(
                    data@.resolved_type,
                ),
                Err(_) => self.spec_type_data(
                    impl_type_def_id,
                    in_cycle || self.type_in_cycle(impl_type_def_id),
                ) is Err,
            },
    {
        if self.facts.cycles.type_items.contains(&impl_type_def_id) {
            priv_impl_type_semantic_data_cycle(self, impl_type_def_id, in_cycle)
        } else {
            priv_impl_type_semantic_data(self, impl_type_def_id, in_cycle)
        }
    }
}

// --- Selectors ---

/// What is wrong with an associated type.
pub fn impl_type_def_semantic_diagnostics(
    db: &SemanticGroup,
    impl_type_def_id: ImplTypeDefId,
) -> (res: Diagnostics)
    requires
        db.wf(),
        db.definable(impl_type_def_id.impl_def_id),
    ensures
        res@ == match db.spec_type_data(impl_type_def_id, db.type_in_cycle(impl_type_def_id)) {
            Ok(data) => data.diagnostics,
            Err(_) => seq![],
        },
{
    match db.impl_type_semantic_data(impl_type_def_id, false) {
        Ok(data) => data.diagnostics,
        Err(_) => Diagnostics::new(),
    }
}

/// The type that an associated type stands for.
pub fn impl_type_def_resolved_type(db: &SemanticGroup, impl_type_def_id: ImplTypeDefId) -> (res:
    Maybe<TypeId>)
    requires
        db.wf(),
        db.definable(impl_type_def_id.impl_def_id),
    ensures
        res == db.spec_resolved_type(impl_type_def_id),
        db.sizes().has_maybe_type(res),
{
    match db.impl_type_semantic_data(impl_type_def_id, false) {
        Ok(data) => data.type_alias_data.resolved_type,
        Err(e) => Err(e),
    }
}

/// The same where the associated type depends on itself.
pub fn impl_type_def_resolved_type_cycle(
    db: &SemanticGroup,
    impl_type_def_id: ImplTypeDefId,
) -> (res: Maybe<TypeId>)
    requires
        db.wf(),
        db.definable(impl_type_def_id.impl_def_id),
    ensures
        res == match db.spec_type_data(impl_type_def_id, true) {
            Ok(data) => data.resolved_type,
            Err(e) => Err(e),
        },
        db.sizes().has_maybe_type(res),
{
    match db.impl_type_semantic_data(impl_type_def_id, true) {
        Ok(data) => data.type_alias_data.resolved_type,
        Err(e) => Err(e),
    }
}

/// The generic parameters of an associated type.
pub fn impl_type_def_generic_params(db: &SemanticGroup, impl_type_def_id: ImplTypeDefId) -> (res:
    Maybe<Vec<GenericParam>>)
    requires
        db.wf(),
        db.definable(impl_type_def_id.impl_def_id),
    ensures
        match res {
            Ok(params) => db.spec_type_generics(impl_type_def_id) matches Ok(g) && params@
                == g.generic_params@,
            Err(_) => db.spec_type_generics(impl_type_def_id) is Err,
        },
{
    match priv_impl_type_def_generic_params_data(db, impl_type_def_id) {
        Ok(data) => Ok(data.generic_params),
        Err(e) => Err(e),
    }
}

/// The attributes of an associated type.
pub fn impl_type_def_attributes(db: &SemanticGroup, impl_type_def_id: ImplTypeDefId) -> (res: Maybe<
    Vec<Attribute>,
>)
    requires
        db.wf(),
        db.definable(impl_type_def_id.impl_def_id),
    ensures
        match res {
            Ok(attributes) => db.spec_type_data(
                impl_type_def_id,
                db.type_in_cycle(impl_type_def_id),
            ) matches Ok(data) && attributes@ == data.attributes,
            Err(_) => db.spec_type_data(impl_type_def_id, db.type_in_cycle(impl_type_def_id)) is Err,
        },
{
    match db.impl_type_semantic_data(impl_type_def_id, false) {
        Ok(data) => Ok(data.type_alias_data.attributes),
        Err(e) => Err(e),
    }
}

/// What name resolution keeps of an associated type.
pub fn impl_type_def_resolver_data(db: &SemanticGroup, impl_type_def_id: ImplTypeDefId) -> (res:
    Maybe<ResolverData>)
    requires
        db.wf(),
        db.definable(impl_type_def_id.impl_def_id),
    ensures
        res == match db.spec_type_data(impl_type_def_id, db.type_in_cycle(impl_type_def_id)) {
            Ok(data) => Ok(data.resolver_data),
            Err(e) => Err(e),
        },
{
    match db.impl_type_semantic_data(impl_type_def_id, false) {
        Ok(data) => Ok(data.type_alias_data.resolver_data),
        Err(e) => Err(e),
    }
}

/// The trait type that an associated type implements.
pub fn impl_type_def_trait_type(db: &SemanticGroup, impl_type_def_id: ImplTypeDefId) -> (res: Maybe<
    TraitTypeId,
>)
    requires
        db.wf(),
        db.definable(impl_type_def_id.impl_def_id),
    ensures
        res == match db.spec_type_data(impl_type_def_id, db.type_in_cycle(impl_type_def_id)) {
            Ok(data) => data.trait_type_id,
            Err(e) => Err(e),
        },
{
    match db.impl_type_semantic_data(impl_type_def_id, false) {
        Ok(data) => data.trait_type_id,
        Err(e) => Err(e),
    }
}

// --- Computation ---

/// An associated type, computed as one that depends on itself or not.
pub fn priv_impl_type_semantic_data(
    db: &SemanticGroup,
    impl_type_def_id: ImplTypeDefId,
    in_cycle: bool,
) -> (res: Maybe<ImplItemTypeData>)
    requires
        db.wf(),
        db.definable(impl_type_def_id.impl_def_id),
    ensures
        match res {
            Ok(data) => db.spec_type_data(impl_type_def_id, in_cycle) == Ok::<_, DiagnosticAdded>(
                data@,
            ) && db.sizes().has_maybe_type(data@.resolved_type),
            Err(_) => db.spec_type_data(impl_type_def_id, in_cycle) is Err,
        },
{
    proof {
        reveal(crate::db::SemanticFacts::valid);
    }
    let mut diagnostics = SemanticDiagnostics::new();
    let types = match impl_types(db, impl_type_def_id.impl_def_id) {
        Ok(types) => types,
        Err(e) => return Err(e),
    };
    let ast = match types.get(&impl_type_def_id) {
        Some(ast) => *ast,
        None => return Err(skip_diagnostic()),
    };
    let generic_params_data = match priv_impl_type_def_generic_params_data(db, impl_type_def_id) {
        Ok(data) => data,
        Err(e) => return Err(e),
    };
    let trait_type_id = validate_impl_item_type(db, &mut diagnostics, impl_type_def_id, &ast);
    let facts = match db.facts.type_items.get(&impl_type_def_id) {
        Some(facts) => facts,
        None => return Err(skip_diagnostic()),
    };
    proof {
        assert(facts.valid(db.sizes()));
    }
    let outcome = if in_cycle {
        &facts.alias_in_cycle
    } else {
        &facts.alias
    };
    let alias = match outcome {
        Ok(alias) => alias,
        Err(e) => return Err(*e),
    };
    diagnostics.extend_outside(&alias.diagnostics);
    let data = ImplItemTypeData {
        type_alias_data: TypeAliasData {
            resolved_type: alias.resolved_type,
            generic_params: generic_params_data.generic_params,
            attributes: copy_ids(&alias.attributes),
            resolver_data: alias.resolver_data,
        },
        trait_type_id,
        diagnostics: diagnostics.build(),
    };
    assert(data@ =~= db.spec_type_data(impl_type_def_id, in_cycle)->Ok_0);
    Ok(data)
}

/// An associated type that depends on itself.
pub fn priv_impl_type_semantic_data_cycle(
    db: &SemanticGroup,
    impl_type_def_id: ImplTypeDefId,
    _in_cycle: bool,
) -> (res: Maybe<ImplItemTypeData>)
    requires
        db.wf(),
        db.definable(impl_type_def_id.impl_def_id),
    ensures
        match res {
            Ok(data) => db.spec_type_data(impl_type_def_id, true) == Ok::<_, DiagnosticAdded>(data@)
                && db.sizes().has_maybe_type(data@.resolved_type),
            Err(_) => db.spec_type_data(impl_type_def_id, true) is Err,
        },
{
    priv_impl_type_semantic_data(db, impl_type_def_id, true)
}

/// The generic parameters of an associated type, with what is wrong with them.
pub fn priv_impl_type_def_generic_params_data(
    db: &SemanticGroup,
    impl_type_def_id: ImplTypeDefId,
) -> (res: Maybe<GenericParamsData>)
    requires
        db.wf(),
        db.definable(impl_type_def_id.impl_def_id),
    ensures
        match res {
            Ok(data) => db.spec_type_generics(impl_type_def_id) matches Ok(g) && data.generic_params@
                == g.generic_params@ && data.diagnostics@ == outside_view(g.diagnostics@)
                && data.resolver_data == g.resolver_data,
            Err(_) => db.spec_type_generics(impl_type_def_id) is Err,
        },
{
    match impl_type_by_id(db, impl_type_def_id) {
        Ok(Some(_)) => {},
        Ok(None) => return Err(skip_diagnostic()),
        Err(e) => return Err(e),
    }
    if let Err(e) = impl_def_resolver_data(db, impl_type_def_id.impl_def_id) {
        return Err(e);
    }
    let generics = match db.facts.type_items.get(&impl_type_def_id) {
        Some(facts) => match &facts.generics {
            Ok(generics) => generics,
            Err(e) => return Err(*e),
        },
        None => return Err(skip_diagnostic()),
    };
    let mut diagnostics = SemanticDiagnostics::new();
    diagnostics.extend_outside(&generics.diagnostics);
    assert(diagnostics@ =~= outside_view(generics.diagnostics@));
    Ok(
        GenericParamsData {
            generic_params: copy_ids(&generics.generic_params),
            diagnostics: diagnostics.build(),
            resolver_data: generics.resolver_data,
        },
    )
}

/// Validates the impl item type, and returns the matching trait type id.
pub fn validate_impl_item_type(
    db: &SemanticGroup,
    diagnostics: &mut SemanticDiagnostics,
    impl_type_def_id: ImplTypeDefId,
    impl_type_ast: &ItemTypeAlias,
) -> (res: Maybe<TraitTypeId>)
    requires
        db.wf(),
    ensures
        ({
            let outcome = type_validation(*db, impl_type_def_id, *impl_type_ast);
            res == outcome.result && final(diagnostics)@ == old(diagnostics)@ + outcome.diagnostics
        }),
{
    let ghost before = diagnostics@;
    let ghost outcome = type_validation(*db, impl_type_def_id, *impl_type_ast);
    assert(before + Seq::<DiagnosticView>::empty() =~= before);
    let impl_def_id = impl_type_def_id.impl_def_id;
    let concrete_trait = match impl_def_concrete_trait(db, impl_def_id) {
        Ok(concrete_trait) => concrete_trait,
        Err(e) => return Err(e),
    };
    let trait_id = db.trait_long(concrete_trait).trait_id;
    let item_name = impl_type_def_id.name;
    let trait_type_id = match db.trait_type_by_name(trait_id, item_name) {
        Ok(Some(trait_type_id)) => trait_type_id,
        Ok(None) => {
            let added = diagnostics.report(
                impl_type_ast.stable_ptr,
                SemanticDiagnosticKind::ImplItemNotInTrait {
                    impl_def_id,
                    impl_item_name: item_name,
                    trait_id,
                    item_kind: ItemKind::Type,
                },
            );
            assert(diagnostics@ =~= before + outcome.diagnostics);
            return Err(added);
        },
        Err(e) => return Err(e),
    };

    // Generic parameters are not yet supported, make sure there are none.
    if impl_type_ast.has_generic_params {
        diagnostics.report(
            impl_type_ast.generic_params_ptr,
            SemanticDiagnosticKind::GenericsNotSupportedInItem {
                scope: ItemScope::Impl,
                item_kind: ItemKind::Type,
            },
        );
    }
    assert(diagnostics@ =~= before + outcome.diagnostics);
    Ok(trait_type_id)
}

/// What is known of an associated type stays as more values are interned.
pub proof fn lemma_type_data_grown(
    before: SemanticGroup,
    after: SemanticGroup,
    id: ImplTypeDefId,
    in_cycle: bool,
)
    requires
        before.wf(),
        before.definable(id.impl_def_id),
        after.grown_from(before),
    ensures
        after.spec_type_data(id, in_cycle) == before.spec_type_data(id, in_cycle),
        after.spec_resolved_type(id) == before.spec_resolved_type(id),
{
    lemma_definition_grown(before, after, id.impl_def_id);
}

// --- Laws ---

/// An associated type is checked against the trait. It implements the trait type of its name; where
/// the trait has none that is reported, and where it has one generic parameters are. What another
/// stage reports of the alias is passed on, and nothing else is reported.
pub proof fn law_associated_types_are_checked(
    db: SemanticGroup,
    id: ImplTypeDefId,
    in_cycle: bool,
    concrete_trait: ConcreteTraitId,
    types: Seq<(SmolStrId, TraitTypeId)>,
    f: TypeItemFacts,
    alias: TypeAliasOutcome,
    ast: ItemTypeAlias,
    d: OutsideDiagnostic,
)
    requires
        db.spec_impl_def_concrete_trait(id.impl_def_id) == Ok::<_, DiagnosticAdded>(concrete_trait),
        lookup(
            db.facts.traits@,
            db.interned@.concrete_traits[concrete_trait.0 as int].trait_id,
        ) matches Some(t) && (t.types matches Ok(table) && table@ == types),
        db.spec_definition(id.impl_def_id) matches Ok(def) && lookup(def.types, id) == Some(ast),
        lookup(db.facts.type_items@, id) == Some(f),
        f.generics is Ok,
        (if in_cycle {
            f.alias_in_cycle
        } else {
            f.alias
        }) == Ok::<_, DiagnosticAdded>(alias),
    ensures
        db.spec_type_data(id, in_cycle) matches Ok(data) && {
            let not_in_trait: DiagnosticView = SemanticDiagnostic {
                stable_ptr: ast.stable_ptr,
                kind: SemanticDiagnosticKind::ImplItemNotInTrait {
                    impl_def_id: id.impl_def_id,
                    impl_item_name: id.name,
                    trait_id: db.interned@.concrete_traits[concrete_trait.0 as int].trait_id,
                    item_kind: ItemKind::Type,
                },
            };
            let with_generics: DiagnosticView = SemanticDiagnostic {
                stable_ptr: ast.generic_params_ptr,
                kind: SemanticDiagnosticKind::GenericsNotSupportedInItem {
                    scope: ItemScope::Impl,
                    item_kind: ItemKind::Type,
                },
            };
            &&& data.resolved_type == alias.resolved_type
            &&& data.attributes == alias.attributes@
            &&& data.resolver_data == alias.resolver_data
            &&& has_key(types, id.name) ==> data.trait_type_id == Ok::<_, DiagnosticAdded>(
                lookup(types, id.name)->0,
            )
            &&& !has_key(types, id.name) ==> data.trait_type_id is Err
            &&& data.diagnostics.contains(not_in_trait) <==> !has_key(types, id.name)
            &&& data.diagnostics.contains(with_generics) <==> has_key(types, id.name)
                && ast.has_generic_params
            &&& data.diagnostics.contains(passed_on(d)) <==> alias.diagnostics@.contains(d)
            &&& data.diagnostics.len() == alias.diagnostics@.len() + if !has_key(types, id.name)
                || ast.has_generic_params {
                1int
            } else {
                0
            }
        },
{
    let data = db.spec_type_data(id, in_cycle)->Ok_0;
    let own = type_validation(db, id, ast).diagnostics;
    let passed = outside_view(alias.diagnostics@);
    lemma_outside_members(alias.diagnostics@, d);
    assert forall|x: DiagnosticView| #[trigger] data.diagnostics.contains(x) <==> own.contains(x)
        || passed.contains(x) by {
        lemma_concat_members(own, passed, x);
    }
    if own.len() > 0 {
        assert(own.contains(own[0]));
    }
}

} // verus!
