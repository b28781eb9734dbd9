//! The associated constants of an impl, and the constants that impls stand for.

use vstd::prelude::*;

use crate::collections::{has_key, lemma_concat_members, lookup};
use crate::db::SemanticGroup;
use crate::declaration::{impl_def_concrete_trait, impl_def_resolver_data};
use crate::definition::{
    is_last_of_id, is_last_of_name, is_written, items_of, law_definitions_list_what_is_written,
    law_named_items_are_listed, lemma_definition_grown, written_items,
};
use crate::diagnostics::{
    diagnostic, lemma_outside_members, outside_view, passed_on, skip_diagnostic, DiagnosticAdded,
    DiagnosticView, Diagnostics, ItemKind, Maybe, OutsideDiagnostic, SemanticDiagnostic,
    SemanticDiagnosticKind, SemanticDiagnostics,
};
use crate::facts::{ConcreteTraitConstantId, ConstantItemFacts, ConstantOutcome, ResolverData};
use crate::ids::{
    ConcreteImplId, ConcreteTraitId, ConstValueId, ImplConstantDefId, ImplDefId, SmolStrId,
    TraitConstantId, TypeId,
};
use crate::impls::{impl_concrete_trait, impl_trait};
use crate::model::{ConstValue, ImplConstantId, ImplLongId};
use crate::selectors::{impl_constant_by_trait_constant, impl_constants};
use crate::queries::made_of;
use crate::signatures::{report_if, settled_type, Outcome};
use crate::substitution::{substitution_from_impl, GenericSubstitution, SubstitutionView};
use crate::syntax::{ImplItem, ItemConstant, ItemImpl};

verus! {

/// What a constant stands for.
pub struct ConstantData {
    pub const_value: ConstValueId,
    pub resolver_data: ResolverData,
}

/// An associated constant of an impl.
pub struct ImplItemConstantData {
    pub constant_data: ConstantData,
    /// The trait constant that the constant implements.
    pub trait_constant_id: Maybe<TraitConstantId>,
    /// The diagnostics of the impl constant, including the ones for the constant itself.
    pub diagnostics: Diagnostics,
}

/// An associated constant of an impl, with its diagnostics as a sequence.
#[verifier::ext_equal]
pub struct ConstantItemView {
    pub const_value: ConstValueId,
    pub resolver_data: ResolverData,
    pub trait_constant_id: Maybe<TraitConstantId>,
    pub diagnostics: Seq<DiagnosticView>,
}

impl View for ImplItemConstantData {
    type V = ConstantItemView;

    open spec fn view(&self) -> ConstantItemView {
        ConstantItemView {
            const_value: self.constant_data.const_value,
            resolver_data: self.constant_data.resolver_data,
            trait_constant_id: self.trait_constant_id,
            diagnostics: self.diagnostics@,
        }
    }
}

/// The trait constant that an associated constant implements, and what is wrong with it.
pub open spec fn constant_validation(
    db: SemanticGroup,
    impl_constant_def_id: ImplConstantDefId,
    ast: ItemConstant,
    f: ConstantItemFacts,
) -> Outcome<TraitConstantId> {
    let impl_def_id = impl_constant_def_id.impl_def_id;
    match db.spec_impl_def_concrete_trait(impl_def_id) {
        Err(e) => Outcome { diagnostics: seq![], result: Err(e) },
        Ok(concrete_trait) => {
            let trait_id = db.spec_trait_long(concrete_trait).trait_id;
            match db.spec_trait_constant_by_name(trait_id, impl_constant_def_id.name) {
                Err(e) => Outcome { diagnostics: seq![], result: Err(e) },
                Ok(None) => Outcome {
                    diagnostics: seq![
                        diagnostic(
                            ast.stable_ptr,
                            SemanticDiagnosticKind::ImplItemNotInTrait {
                                impl_def_id,
                                impl_item_name: impl_constant_def_id.name,
                                trait_id,
                                item_kind: ItemKind::Const,
                            },
                        ),
                    ],
                    result: Err(DiagnosticAdded),
                },
                Ok(Some(trait_constant_id)) => match db.spec_trait_constant_type(
                    ConcreteTraitConstantId { concrete_trait, trait_constant_id },
                ) {
                    Err(e) => Outcome { diagnostics: seq![], result: Err(e) },
                    Ok(ty) => {
                        let expected_ty = f.inference.spec_rewrite_type(ty);
                        let actual_ty = f.inference.spec_rewrite_type(f.declared_type);
                        Outcome {
                            diagnostics: outside_view(f.type_diagnostics@) + report_if(
                                expected_ty != actual_ty,
                                ast.type_clause_ptr,
                                SemanticDiagnosticKind::WrongType { expected_ty, actual_ty },
                            ),
                            result: Ok(trait_constant_id),
                        }
                    },
                },
            }
        },
    }
}

impl SemanticGroup {
    /// The facts about an associated constant, and its syntax, where its impl has a definition.
    pub open spec fn spec_constant_item(self, id: ImplConstantDefId) -> Maybe<
        (ConstantItemFacts, ItemConstant),
    > {
        match (self.spec_definition(id.impl_def_id), lookup(self.facts.constant_items@, id)) {
            (Ok(d), Some(f)) => match lookup(d.constants, id) {
                Some(ast) => Ok((f, ast)),
                None => Err(DiagnosticAdded),
            },
            _ => Err(DiagnosticAdded),
        }
    }

    /// An associated constant, computed as one that depends on itself or not.
    pub open spec fn spec_constant_data(self, id: ImplConstantDefId, in_cycle: bool) -> Maybe<
        ConstantItemView,
    > {
        match self.spec_constant_item(id) {
            Ok((f, ast)) => match if in_cycle {
                f.constant_in_cycle
            } else {
                f.constant
            } {
                Ok(constant) => {
                    let validation = constant_validation(self, id, ast, f);
                    Ok(
                        ConstantItemView {
                            const_value: constant.const_value,
                            resolver_data: constant.resolver_data,
                            trait_constant_id: validation.result,
                            diagnostics: validation.diagnostics + outside_view(
                                constant.diagnostics@,
                            ),
                        },
                    )
                },
                Err(e) => Err(e),
            },
            Err(e) => Err(e),
        }
    }

    /// Whether an associated constant depends on itself.
    pub open spec fn constant_in_cycle(self, id: ImplConstantDefId) -> bool {
        self.facts.cycles.constant_items@.contains(id)
    }

    /// The value of an associated constant.
    pub open spec fn spec_constant_value(self, id: ImplConstantDefId) -> Maybe<ConstValueId> {
        match self.spec_constant_data(id, self.constant_in_cycle(id)) {
            Ok(data) => Ok(data.const_value),
            Err(e) => Err(e),
        }
    }

    /// An associated constant, by way of the cycle handler where it depends on itself.
    pub fn impl_constant_semantic_data(
        &self,
        impl_constant_def_id: ImplConstantDefId,
        in_cycle: bool,
    ) -> (res: Maybe<ImplItemConstantData>)
        requires
            self.wf(),
            self.definable(impl_constant_def_id.impl_def_id),
        ensures
            match res {
                Ok(data) => self.spec_constant_data(
                    impl_constant_def_id,
                    in_cycle || self.constant_in_cycle(impl_constant_def_id),
                ) == Ok::<_, DiagnosticAdded>(data@),
                Err(_) => self.spec_constant_data(
                    impl_constant_def_id,
                    in_cycle || self.constant_in_cycle(impl_constant_def_id),
                ) is Err,
            },
    {
        if self.facts.cycles.constant_items.contains(&impl_constant_def_id) {
            priv_impl_constant_semantic_data_cycle(self, impl_constant_def_id, in_cycle)
        } else {
            priv_impl_constant_semantic_data(self, impl_constant_def_id, in_cycle)
        }
    }
}

// --- Selectors ---

/// What is wrong with an associated constant.
pub fn impl_constant_def_semantic_diagnostics(
    db: &SemanticGroup,
    impl_constant_def_id: ImplConstantDefId,
) -> (res: Diagnostics)
    requires
        db.wf(),
        db.definable(impl_constant_def_id.impl_def_id),
    ensures
        res@ == match db.spec_constant_data(
            impl_constant_def_id,
            db.constant_in_cycle(impl_constant_def_id),
        ) {
            Ok(data) => data.diagnostics,
            Err(_) => seq![],
        },
{
    match db.impl_constant_semantic_data(impl_constant_def_id, false) {
        Ok(data) => data.diagnostics,
        Err(_) => Diagnostics::new(),
    }
}

/// The value of an associated constant.
pub fn impl_constant_def_value(db: &SemanticGroup, impl_constant_def_id: ImplConstantDefId) -> (res:
    Maybe<ConstValueId>)
    requires
        db.wf(),
        db.definable(impl_constant_def_id.impl_def_id),
    ensures
        res == db.spec_constant_value(impl_constant_def_id),
{
    match db.impl_constant_semantic_data(impl_constant_def_id, false) {
        Ok(data) => Ok(data.constant_data.const_value),
        Err(e) => Err(e),
    }
}

/// The same where the associated constant depends on itself.
pub fn impl_constant_def_value_cycle(
    db: &SemanticGroup,
    impl_constant_def_id: ImplConstantDefId,
) -> (res: Maybe<ConstValueId>)
    requires
        db.wf(),
        db.definable(impl_constant_def_id.impl_def_id),
    ensures
        res == match db.spec_constant_data(impl_constant_def_id, true) {
            Ok(data) => Ok(data.const_value),
            Err(e) => Err(e),
        },
{
    match db.impl_constant_semantic_data(impl_constant_def_id, true) {
        Ok(data) => Ok(data.constant_data.const_value),
        Err(e) => Err(e),
    }
}

/// What name resolution keeps of an associated constant.
pub fn impl_constant_def_resolver_data(
    db: &SemanticGroup,
    impl_constant_def_id: ImplConstantDefId,
) -> (res: Maybe<ResolverData>)
    requires
        db.wf(),
        db.definable(impl_constant_def_id.impl_def_id),
    ensures
        res == match db.spec_constant_data(
            impl_constant_def_id,
            db.constant_in_cycle(impl_constant_def_id),
        ) {
            Ok(data) => Ok(data.resolver_data),
            Err(e) => Err(e),
        },
{
    match db.impl_constant_semantic_data(impl_constant_def_id, false) {
        Ok(data) => Ok(data.constant_data.resolver_data),
        Err(e) => Err(e),
    }
}

/// The trait constant that an associated constant implements.
pub fn impl_constant_def_trait_constant(
    db: &SemanticGroup,
    impl_constant_def_id: ImplConstantDefId,
) -> (res: Maybe<TraitConstantId>)
    requires
        db.wf(),
        db.definable(impl_constant_def_id.impl_def_id),
    ensures
        res == match db.spec_constant_data(
            impl_constant_def_id,
            db.constant_in_cycle(impl_constant_def_id),
        ) {
            Ok(data) => data.trait_constant_id,
            Err(e) => Err(e),
        },
{
    match db.impl_constant_semantic_data(impl_constant_def_id, false) {
        Ok(data) => data.trait_constant_id,
        Err(e) => Err(e),
    }
}

// --- Computation ---

/// An associated constant, computed as one that depends on itself or not.
pub fn priv_impl_constant_semantic_data(
    db: &SemanticGroup,
    impl_constant_def_id: ImplConstantDefId,
    in_cycle: bool,
) -> (res: Maybe<ImplItemConstantData>)
    requires
        db.wf(),
        db.definable(impl_constant_def_id.impl_def_id),
    ensures
        match res {
            Ok(data) => db.spec_constant_data(impl_constant_def_id, in_cycle) == Ok::<
                _,
                DiagnosticAdded,
            >(data@),
            Err(_) => db.spec_constant_data(impl_constant_def_id, in_cycle) is Err,
        },
{
    let mut diagnostics = SemanticDiagnostics::new();
    let impl_def_id = impl_constant_def_id.impl_def_id;
    let constants = match impl_constants(db, impl_def_id) {
        Ok(constants) => constants,
        Err(e) => return Err(e),
    };
    let ast = match constants.get(&impl_constant_def_id) {
        Some(ast) => *ast,
        None => return Err(skip_diagnostic()),
    };
    if let Err(e) = impl_def_resolver_data(db, impl_def_id) {
        return Err(e);
    }
    let facts = match db.facts.constant_items.get(&impl_constant_def_id) {
        Some(facts) => facts,
        None => return Err(skip_diagnostic()),
    };
    let trait_constant_id = validate_impl_item_constant(
        db,
        &mut diagnostics,
        impl_constant_def_id,
        &ast,
        facts,
    );
    let outcome = if in_cycle {
        &facts.constant_in_cycle
    } else {
        &facts.constant
    };
    let constant = match outcome {
        Ok(constant) => constant,
        Err(e) => return Err(*e),
    };
    diagnostics.extend_outside(&constant.diagnostics);
    let data = ImplItemConstantData {
        constant_data: ConstantData {
            const_value: constant.const_value,
            resolver_data: constant.resolver_data,
        },
        trait_constant_id,
        diagnostics: diagnostics.build(),
    };
    assert(data@ =~= db.spec_constant_data(impl_constant_def_id, in_cycle)->Ok_0);
    Ok(data)
}

/// An associated constant that depends on itself.
pub fn priv_impl_constant_semantic_data_cycle(
    db: &SemanticGroup,
    impl_constant_def_id: ImplConstantDefId,
    _in_cycle: bool,
) -> (res: Maybe<ImplItemConstantData>)
    requires
        db.wf(),
        db.definable(impl_constant_def_id.impl_def_id),
    ensures
        match res {
            Ok(data) => db.spec_constant_data(impl_constant_def_id, true) == Ok::<
                _,
                DiagnosticAdded,
            >(data@),
            Err(_) => db.spec_constant_data(impl_constant_def_id, true) is Err,
        },
{
    priv_impl_constant_semantic_data(db, impl_constant_def_id, true)
}

/// Validates the impl item constant, and returns the matching trait constant id.
pub fn validate_impl_item_constant(
    db: &SemanticGroup,
    diagnostics: &mut SemanticDiagnostics,
    impl_constant_def_id: ImplConstantDefId,
    impl_constant_ast: &ItemConstant,
    facts: &ConstantItemFacts,
) -> (res: Maybe<TraitConstantId>)
    requires
        db.wf(),
    ensures
        ({
            let outcome = constant_validation(
                *db,
                impl_constant_def_id,
                *impl_constant_ast,
                *facts,
            );
            res == outcome.result && final(diagnostics)@ == old(diagnostics)@ + outcome.diagnostics
        }),
{
    let ghost before = diagnostics@;
    let ghost outcome = constant_validation(*db, impl_constant_def_id, *impl_constant_ast, *facts);
    assert(before + Seq::<DiagnosticView>::empty() =~= before);
    let impl_def_id = impl_constant_def_id.impl_def_id;
    let concrete_trait = match impl_def_concrete_trait(db, impl_def_id) {
        Ok(concrete_trait) => concrete_trait,
        Err(e) => return Err(e),
    };
    let trait_id = db.trait_long(concrete_trait).trait_id;
    let constant_name = impl_constant_def_id.name;
    let trait_constant_id = match db.trait_constant_by_name(trait_id, constant_name) {
        Ok(Some(trait_constant_id)) => trait_constant_id,
        Ok(None) => {
            let added = diagnostics.report(
                impl_constant_ast.stable_ptr,
                SemanticDiagnosticKind::ImplItemNotInTrait {
                    impl_def_id,
                    impl_item_name: constant_name,
                    trait_id,
                    item_kind: ItemKind::Const,
                },
            );
            assert(diagnostics@ =~= before + outcome.diagnostics);
            return Err(added);
        },
        Err(e) => return Err(e),
    };
    let concrete_trait_constant = ConcreteTraitConstantId { concrete_trait, trait_constant_id };
    let concrete_trait_constant_ty = match db.concrete_trait_constant_type(
        concrete_trait_constant,
    ) {
        Ok(ty) => ty,
        Err(e) => return Err(e),
    };
    diagnostics.extend_outside(&facts.type_diagnostics);
    let expected_ty = facts.inference.rewrite_type(concrete_trait_constant_ty);
    let actual_ty = facts.inference.rewrite_type(facts.declared_type);
    if expected_ty != actual_ty {
        diagnostics.report(
            impl_constant_ast.type_clause_ptr,
            SemanticDiagnosticKind::WrongType { expected_ty, actual_ty },
        );
    }
    assert(diagnostics@ =~= before + outcome.diagnostics);
    Ok(trait_constant_id)
}

// --- Impl constants ---

impl SemanticGroup {
    /// Whether the item of an impl that has the name of a trait constant is a constant of an impl
    /// of that trait.
    pub open spec fn provides_constant(self, impl_def_id: ImplDefId, id: TraitConstantId) -> bool {
        &&& self.definable(impl_def_id)
        &&& self.implements(impl_def_id, id.trait_id)
        &&& self.spec_impl_item_by_name(impl_def_id, id.name) matches Ok(Some(item))
            ==> item is Constant
    }

    /// The constant that an impl gives for a trait constant.
    pub open spec fn spec_implized_constant(
        self,
        impl_def_id: ImplDefId,
        id: TraitConstantId,
    ) -> Maybe<ConstValueId> {
        match self.spec_impl_constant_by_trait_constant(impl_def_id, id) {
            Ok(def) => self.spec_constant_value(def),
            Err(e) => Err(e),
        }
    }
}

/// An item that an impl has by name is one of the impl.
pub proof fn lemma_item_belongs(db: SemanticGroup, impl_def_id: ImplDefId, name: SmolStrId)
    ensures
        db.spec_impl_item_by_name(impl_def_id, name) matches Ok(Some(id))
            ==> crate::definition::item_id_name(id) == (impl_def_id, name),
{
    if let Ok(d) = db.spec_definition(impl_def_id) {
        match db.spec_impl_ast(impl_def_id)->Ok_0.body {
            Some(items) => {
                law_named_items_are_listed(impl_def_id, items@);
                assert(lookup(items_of(impl_def_id, items@).by_name, name) == lookup(
                    d.by_name,
                    name,
                ));
            },
            None => {},
        }
    }
}

/// The constant that an impl gives for a trait constant.
pub fn impl_constant_implized_by_context(
    db: &SemanticGroup,
    impl_constant_id: ImplConstantId,
    impl_def_id: ImplDefId,
) -> (res: Maybe<ConstValueId>)
    requires
        db.wf(),
        db.provides_constant(impl_def_id, impl_constant_id.trait_constant_id),
    ensures
        res == db.spec_implized_constant(impl_def_id, impl_constant_id.trait_constant_id),
{
    proof {
        lemma_item_belongs(*db, impl_def_id, impl_constant_id.trait_constant_id.name);
    }
    match impl_constant_by_trait_constant(db, impl_def_id, impl_constant_id.trait_constant_id) {
        Ok(impl_constant_def_id) => impl_constant_def_value(db, impl_constant_def_id),
        Err(e) => Err(e),
    }
}

/// The same where the constant depends on itself.
pub fn impl_constant_implized_by_context_cycle(
    db: &SemanticGroup,
    impl_constant_id: ImplConstantId,
    impl_def_id: ImplDefId,
) -> (res: Maybe<ConstValueId>)
    requires
        db.wf(),
        db.provides_constant(impl_def_id, impl_constant_id.trait_constant_id),
    ensures
        res == db.spec_implized_constant(impl_def_id, impl_constant_id.trait_constant_id),
{
    impl_constant_implized_by_context(db, impl_constant_id, impl_def_id)
}

/// Whether the constant of a concrete impl can be looked up.
pub open spec fn constant_ready(db: SemanticGroup, id: ImplConstantId) -> bool {
    &&& db.has_impl(id.impl_id)
    &&& db.spec_impl_long(id.impl_id) matches ImplLongId::Concrete(c) ==> db.provides_constant(
        db.spec_concrete_impl_long(c).impl_def_id,
        id.trait_constant_id,
    )
}

/// The value that a constant of an impl stands for: that of a concrete impl is looked up and
/// substituted, that of any other impl stays a constant of the impl.
pub open spec fn is_implized_value(
    db: SemanticGroup,
    id: ImplConstantId,
    res: Maybe<ConstValueId>,
) -> bool {
    match db.spec_impl_long(id.impl_id) {
        ImplLongId::Concrete(c) => res == match (
            db.spec_implized_constant(
                db.spec_concrete_impl_long(c).impl_def_id,
                id.trait_constant_id,
            ),
            db.spec_impl_substitution(id.impl_id, c),
        ) {
            (Ok(value), Ok(s)) => db.spec_substitute_value(s, value),
            _ => Err(DiagnosticAdded),
        },
        _ => match db.spec_substitute_impl_constant(substitution_from_impl(id.impl_id), id) {
            Ok(r) => res matches Ok(value) && value.0 < db.interned@.const_values.len()
                && db.interned@.const_values[value.0 as int] == ConstValue::ImplConstant(r),
            Err(_) => res is Err,
        },
    }
}

/// The value that a constant of an impl stands for.
pub fn impl_constant_concrete_implized_value(
    db: &mut SemanticGroup,
    impl_constant_id: ImplConstantId,
) -> (res: Maybe<ConstValueId>)
    requires
        old(db).wf(),
        constant_ready(*old(db), impl_constant_id),
    ensures
        final(db).wf(),
        final(db).grown_from(*old(db)),
        is_implized_value(*final(db), impl_constant_id, res),
{
    let impl_id = impl_constant_id.impl_id;
    proof {
        assert(db.interned@.impl_parts(impl_id.0 as int, db.interned@.impls[impl_id.0 as int]));
    }
    if let ImplLongId::Concrete(concrete_impl) = db.impl_long(impl_id) {
        let impl_def_id = concrete_impl.impl_def_id(db);
        let constant = match impl_constant_implized_by_context(db, impl_constant_id, impl_def_id) {
            Ok(constant) => constant,
            Err(e) => return Err(e),
        };
        return match db.impl_substitution(impl_id, concrete_impl) {
            Ok(substitution) => db.substitute_value(&substitution, constant),
            Err(e) => Err(e),
        };
    }
    let substitution = GenericSubstitution::from_impl(impl_id);
    let substitution_id = match db.substitute_impl_constant(&substitution, impl_constant_id) {
        Ok(id) => id,
        Err(e) => return Err(e),
    };
    Ok(db.intern_const_value(ConstValue::ImplConstant(substitution_id)))
}

/// The same where the constant depends on itself.
pub fn impl_constant_concrete_implized_value_cycle(
    db: &mut SemanticGroup,
    impl_constant_id: ImplConstantId,
) -> (res: Maybe<ConstValueId>)
    requires
        old(db).wf(),
        constant_ready(*old(db), impl_constant_id),
    ensures
        final(db).wf(),
        final(db).grown_from(*old(db)),
        is_implized_value(*final(db), impl_constant_id, res),
{
    impl_constant_concrete_implized_value(db, impl_constant_id)
}

/// The type of a constant of an impl: that of the value of a concrete impl, and that of the trait
/// constant for any other impl, substituted.
pub open spec fn implized_type(db: SemanticGroup, id: ImplConstantId) -> Maybe<TypeId> {
    match db.spec_impl_long(id.impl_id) {
        ImplLongId::Concrete(c) => match db.spec_implized_constant(
            db.spec_concrete_impl_long(c).impl_def_id,
            id.trait_constant_id,
        ) {
            Ok(value) => match (
                db.spec_value_type(value),
                db.spec_impl_substitution(id.impl_id, c),
            ) {
                (Ok(ty), Ok(s)) => db.spec_substitute_type(s, ty),
                _ => Err(DiagnosticAdded),
            },
            Err(e) => Err(e),
        },
        _ => match impl_trait(db, id.impl_id) {
            Ok(concrete_trait) => match db.spec_trait_constant_type(
                ConcreteTraitConstantId { concrete_trait, trait_constant_id: id.trait_constant_id },
            ) {
                Ok(ty) => db.spec_substitute_type(substitution_from_impl(id.impl_id), ty),
                Err(e) => Err(e),
            },
            Err(e) => Err(e),
        },
    }
}

/// The type of a constant of an impl.
pub fn impl_constant_concrete_implized_type(
    db: &SemanticGroup,
    impl_constant_id: ImplConstantId,
) -> (res: Maybe<TypeId>)
    requires
        db.wf(),
        constant_ready(*db, impl_constant_id),
    ensures
        res == implized_type(*db, impl_constant_id),
        db.sizes().has_maybe_type(res),
{
    let impl_id = impl_constant_id.impl_id;
    proof {
        assert(db.interned@.impl_parts(impl_id.0 as int, db.interned@.impls[impl_id.0 as int]));
    }
    if let ImplLongId::Concrete(concrete_impl) = db.impl_long(impl_id) {
        let impl_def_id = concrete_impl.impl_def_id(db);
        let constant = match impl_constant_implized_by_context(db, impl_constant_id, impl_def_id) {
            Ok(constant) => constant,
            Err(e) => return Err(e),
        };
        let ty = match db.value_type(constant) {
            Ok(ty) => ty,
            Err(e) => return Err(e),
        };
        return match db.impl_substitution(impl_id, concrete_impl) {
            Ok(substitution) => db.substitute_type(&substitution, ty),
            Err(e) => Err(e),
        };
    }
    let concrete_trait = match impl_concrete_trait(db, impl_id) {
        Ok(concrete_trait) => concrete_trait,
        Err(e) => return Err(e),
    };
    let id = ConcreteTraitConstantId {
        concrete_trait,
        trait_constant_id: impl_constant_id.trait_constant_id,
    };
    match db.concrete_trait_constant_type(id) {
        Ok(ty) => db.substitute_type(&GenericSubstitution::from_impl(impl_id), ty),
        Err(e) => Err(e),
    }
}

/// The same where the constant depends on itself.
pub fn impl_constant_concrete_implized_type_cycle(
    db: &SemanticGroup,
    impl_constant_id: ImplConstantId,
) -> (res: Maybe<TypeId>)
    requires
        db.wf(),
        constant_ready(*db, impl_constant_id),
    ensures
        res == implized_type(*db, impl_constant_id),
        db.sizes().has_maybe_type(res),
{
    impl_constant_concrete_implized_type(db, impl_constant_id)
}

/// What is known of an associated constant stays as more values are interned.
pub proof fn lemma_constant_data_grown(
    before: SemanticGroup,
    after: SemanticGroup,
    id: ImplConstantDefId,
    in_cycle: bool,
)
    requires
        before.wf(),
        before.definable(id.impl_def_id),
        after.grown_from(before),
    ensures
        after.spec_constant_data(id, in_cycle) == before.spec_constant_data(id, in_cycle),
{
    lemma_definition_grown(before, after, id.impl_def_id);
}

// --- Laws ---

/// An associated constant is checked against the trait. It implements the trait constant of its
/// name; where the trait has none that is reported. Where it has one, a written type that is not the
/// one that the trait asks for is reported, at the type, and what another stage reports of the
/// written type is passed on. What is reported of the value is passed on in any case.
pub proof fn law_associated_constants_are_checked(
    db: SemanticGroup,
    id: ImplConstantDefId,
    in_cycle: bool,
    concrete_trait: ConcreteTraitId,
    constants: Seq<(SmolStrId, TraitConstantId)>,
    f: ConstantItemFacts,
    constant: ConstantOutcome,
    ast: ItemConstant,
    asked: TypeId,
    d: OutsideDiagnostic,
)
    requires
        db.spec_impl_def_concrete_trait(id.impl_def_id) == Ok::<_, DiagnosticAdded>(concrete_trait),
        lookup(
            db.facts.traits@,
            db.interned@.concrete_traits[concrete_trait.0 as int].trait_id,
        ) matches Some(t) && (t.constants matches Ok(table) && table@ == constants),
        db.spec_definition(id.impl_def_id) matches Ok(def) && lookup(def.constants, id) == Some(
            ast,
        ),
        lookup(db.facts.constant_items@, id) == Some(f),
        (if in_cycle {
            f.constant_in_cycle
        } else {
            f.constant
        }) == Ok::<_, DiagnosticAdded>(constant),
        lookup(constants, id.name) matches Some(trait_constant_id) ==> lookup(
            db.facts.trait_constant_types@,
            ConcreteTraitConstantId { concrete_trait, trait_constant_id },
        ) == Some(Ok::<_, DiagnosticAdded>(asked)),
    ensures
        db.spec_constant_data(id, in_cycle) matches Ok(data) && {
            let expected_ty = settled_type(f.inference, asked);
            let actual_ty = settled_type(f.inference, f.declared_type);
            let not_in_trait: DiagnosticView = SemanticDiagnostic {
                stable_ptr: ast.stable_ptr,
                kind: SemanticDiagnosticKind::ImplItemNotInTrait {
                    impl_def_id: id.impl_def_id,
                    impl_item_name: id.name,
                    trait_id: db.interned@.concrete_traits[concrete_trait.0 as int].trait_id,
                    item_kind: ItemKind::Const,
                },
            };
            let wrong_type: DiagnosticView = SemanticDiagnostic {
                stable_ptr: ast.type_clause_ptr,
                kind: SemanticDiagnosticKind::WrongType { expected_ty, actual_ty },
            };
            let known = has_key(constants, id.name);
            &&& data.const_value == constant.const_value
            &&& data.resolver_data == constant.resolver_data
            &&& known ==> data.trait_constant_id == Ok::<_, DiagnosticAdded>(
                lookup(constants, id.name)->0,
            )
            &&& !known ==> data.trait_constant_id is Err
            &&& data.diagnostics.contains(not_in_trait) <==> !known
            &&& data.diagnostics.contains(wrong_type) <==> known && expected_ty != actual_ty
            &&& data.diagnostics.contains(passed_on(d)) <==> constant.diagnostics@.contains(d) || (
            known && f.type_diagnostics@.contains(d))
            &&& data.diagnostics.len() == constant.diagnostics@.len() + (if known {
                f.type_diagnostics@.len() + if expected_ty != actual_ty {
                    1int
                } else {
                    0
                }
            } else {
                1
            })
        },
{
    let data = db.spec_constant_data(id, in_cycle)->Ok_0;
    let own = constant_validation(db, id, ast, f).diagnostics;
    let passed = outside_view(constant.diagnostics@);
    let of_type = outside_view(f.type_diagnostics@);
    lemma_outside_members(constant.diagnostics@, d);
    lemma_outside_members(f.type_diagnostics@, d);
    assert forall|x: DiagnosticView| #[trigger] data.diagnostics.contains(x) <==> own.contains(x)
        || passed.contains(x) by {
        lemma_concat_members(own, passed, x);
    }
    let expected_ty = settled_type(f.inference, asked);
    let actual_ty = settled_type(f.inference, f.declared_type);
    let wrong = report_if(
        expected_ty != actual_ty,
        ast.type_clause_ptr,
        SemanticDiagnosticKind::WrongType { expected_ty, actual_ty },
    );
    if has_key(constants, id.name) {
        assert(own == of_type + wrong);
        assert forall|x: DiagnosticView| #[trigger] own.contains(x) <==> of_type.contains(x)
            || wrong.contains(x) by {
            lemma_concat_members(of_type, wrong, x);
        }
        if wrong.len() > 0 {
            assert(wrong.contains(wrong[0]));
        }
    } else {
        assert(own.contains(own[0]));
    }
}

/// Whether an impl resolves a constant by its name: the last item of that name in its body is a
/// constant, and that is recorded to have a value.
pub open spec fn resolves_constant(
    db: SemanticGroup,
    impl_def_id: ImplDefId,
    name: SmolStrId,
    value: ConstValueId,
) -> bool {
    exists|ast: ItemImpl, i: int| #[trigger]
        is_written(db, impl_def_id, ast) && #[trigger] is_last_of_name(written_items(ast), i) && (
        written_items(ast)[i] matches ImplItem::Constant(t, _) && t.name == name && {
            let id = ImplConstantDefId { impl_def_id, name, stable_ptr: t.stable_ptr };
            lookup(db.facts.constant_items@, id) matches Some(f) && (if
            db.facts.cycles.constant_items@.contains(id) {
                f.constant_in_cycle
            } else {
                f.constant
            } matches Ok(constant) && constant.const_value == value)
        })
}

/// The constant that an impl gives for a trait constant is the one that its body resolves under that
/// name.
pub proof fn law_impls_give_the_constants_they_write(
    db: SemanticGroup,
    impl_def_id: ImplDefId,
    id: TraitConstantId,
    value: ConstValueId,
)
    requires
        db.spec_definition(impl_def_id) is Ok,
        db.spec_impl_def_trait(impl_def_id) is Ok,
        resolves_constant(db, impl_def_id, id.name, value),
    ensures
        db.spec_implized_constant(impl_def_id, id) == Ok::<_, DiagnosticAdded>(value),
{
    let (ast, i) = choose|ast: ItemImpl, i: int| #[trigger]
        is_written(db, impl_def_id, ast) && #[trigger] is_last_of_name(written_items(ast), i) && (
        written_items(ast)[i] matches ImplItem::Constant(t, _) && t.name == id.name && {
            let id = ImplConstantDefId { impl_def_id, name: id.name, stable_ptr: t.stable_ptr };
            lookup(db.facts.constant_items@, id) matches Some(f) && (if
            db.facts.cycles.constant_items@.contains(id) {
                f.constant_in_cycle
            } else {
                f.constant
            } matches Ok(constant) && constant.const_value == value)
        });
    let d = db.spec_definition(impl_def_id)->Ok_0;
    law_definitions_list_what_is_written(db, impl_def_id, ast, d);
    assert(is_last_of_id(impl_def_id, written_items(ast), i));
}

/// The value of a trait constant in a concrete impl is what the substitution of the impl makes of
/// the value that its definition resolves, and its type is what the substitution makes of the type
/// of that value.
pub proof fn law_constants_of_concrete_impls_are_substituted(
    db: SemanticGroup,
    id: ImplConstantId,
    c: ConcreteImplId,
    s: SubstitutionView,
    written: ConstValueId,
    res: Maybe<ConstValueId>,
)
    requires
        db.interned@.impls[id.impl_id.0 as int] == ImplLongId::Concrete(c),
        db.spec_definition(db.interned@.concrete_impls[c.0 as int].impl_def_id) is Ok,
        db.spec_impl_def_trait(db.interned@.concrete_impls[c.0 as int].impl_def_id) is Ok,
        resolves_constant(
            db,
            db.interned@.concrete_impls[c.0 as int].impl_def_id,
            id.trait_constant_id.name,
            written,
        ),
        db.spec_impl_substitution(id.impl_id, c) == Ok::<_, DiagnosticAdded>(s),
        is_implized_value(db, id, res),
    ensures
        res == made_of(db.facts.substituted_values@, (s, written), written),
        match lookup(db.facts.value_types@, written) {
            Some(Ok(ty)) => implized_type(db, id) == made_of(
                db.facts.substituted_types@,
                (s, ty),
                ty,
            ),
            _ => implized_type(db, id) is Err,
        },
{
    law_impls_give_the_constants_they_write(
        db,
        db.interned@.concrete_impls[c.0 as int].impl_def_id,
        id.trait_constant_id,
        written,
    );
}

/// A trait constant in an impl that is not concrete stays a constant of that impl, and has the type
/// that the trait of the impl gives it, as far as the impl is known.
pub proof fn law_constants_of_other_impls(
    db: SemanticGroup,
    id: ImplConstantId,
    res: Maybe<ConstValueId>,
)
    requires
        !(db.interned@.impls[id.impl_id.0 as int] is Concrete),
        is_implized_value(db, id, res),
    ensures
        ({
            let s = SubstitutionView { param_to_arg: seq![], self_impl: Some(id.impl_id) };
            &&& match made_of(db.facts.substituted_impl_constants@, (s, id), id) {
                Ok(r) => res matches Ok(value) && value.0 < db.interned@.const_values.len()
                    && db.interned@.const_values[value.0 as int] == ConstValue::ImplConstant(r),
                Err(_) => res is Err,
            }
            &&& match impl_trait(db, id.impl_id) {
                Ok(concrete_trait) => match lookup(
                    db.facts.trait_constant_types@,
                    ConcreteTraitConstantId {
                        concrete_trait,
                        trait_constant_id: id.trait_constant_id,
                    },
                ) {
                    Some(Ok(ty)) => implized_type(db, id) == made_of(
                        db.facts.substituted_types@,
                        (s, ty),
                        ty,
                    ),
                    _ => implized_type(db, id) is Err,
                },
                Err(_) => implized_type(db, id) is Err,
            }
        }),
{
}

} // verus!
