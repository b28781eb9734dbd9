//! The declaration of an impl: its generic parameters and the trait that it implements.

use vstd::prelude::*;

use crate::collections::{
    assoc_extend, copy_ids, has_key, law_get_after_insert, lemma_concat_members,
    lemma_insert_unique, lookup, unique_keys,
};
use crate::db::SemanticGroup;
use crate::diagnostics::{
    diagnostic, lemma_outside_members, outside_view, passed_on, DiagnosticAdded, DiagnosticView,
    Diagnostics, Maybe, OutsideDiagnostic, SemanticDiagnostic, SemanticDiagnosticKind,
    SemanticDiagnostics,
};
use crate::facts::{
    CoreInfo, ImplDefFacts, Inference, ResolvedConcreteItem, ResolverData, TraitOrImplContext,
};
use crate::functions::settles_param;
use crate::ids::{
    Attribute, ConcreteImplId, ConcreteTraitId, GenericParamId, ImplDefId, ImplId, ModuleId,
    TraitId,
};
use crate::interner::interned_with;
use crate::model::{
    ConcreteImplLongId, ConcreteImplView, GenericArgumentId, GenericParam, ImplLongId,
};
use crate::substitution::{
    law_later_substitution_wins, law_parameters_get_their_arguments, param_arg_pairs,
    substitution_concat, substitution_from_impl, substitution_of, GenericSubstitution,
    SubstitutionView,
};
use crate::syntax::ItemImpl;

verus! {

/// The generic parameters of an item.
pub struct GenericParamsData {
    pub generic_params: Vec<GenericParam>,
    pub diagnostics: Diagnostics,
    pub resolver_data: ResolverData,
}

/// What is known of an impl from its declaration.
pub struct ImplDeclarationData {
    pub diagnostics: Diagnostics,
    pub generic_params: Vec<GenericParam>,
    /// The concrete trait this impl implements, or Err if cannot be resolved.
    pub concrete_trait: Maybe<ConcreteTraitId>,
    pub attributes: Vec<Attribute>,
    pub resolver_data: ResolverData,
}

/// The generic parameters of an impl, as inference settled them.
pub open spec fn generic_params_of(f: ImplDefFacts) -> Seq<GenericParam> {
    f.generics.inference.spec_rewrite_params(f.generics.generic_params@)
}

/// What is wrong with the generic parameters of an impl.
pub open spec fn generic_params_diagnostics(f: ImplDefFacts) -> Seq<DiagnosticView> {
    outside_view(f.feature_diagnostics@) + outside_view(f.generics.diagnostics@)
        + outside_view(f.generics.finalize_diagnostics@)
}

/// The trait that the path of an impl stands for.
pub open spec fn trait_of_path(item: Maybe<ResolvedConcreteItem>) -> Maybe<ConcreteTraitId> {
    match item {
        Ok(ResolvedConcreteItem::Trait(id)) => Ok(id),
        Ok(ResolvedConcreteItem::SelfTrait(id)) => Ok(id),
        _ => Err(DiagnosticAdded),
    }
}

/// The trait that an impl implements, before inference has settled it. Where the declaration
/// depends on itself the trait is not resolved.
pub open spec fn declared_trait(f: ImplDefFacts, resolve_trait: bool) -> Maybe<ConcreteTraitId> {
    if resolve_trait {
        trait_of_path(f.declaration.trait_item)
    } else {
        Err(DiagnosticAdded)
    }
}

/// What is wrong with the trait path of an impl.
pub open spec fn trait_path_diagnostics(
    f: ImplDefFacts,
    ast: ItemImpl,
    resolve_trait: bool,
) -> Seq<DiagnosticView> {
    if !resolve_trait {
        seq![diagnostic(ast.trait_path_ptr, SemanticDiagnosticKind::ImplRequirementCycle)]
    } else if f.declaration.trait_item matches Ok(ResolvedConcreteItem::Other(_)) {
        outside_view(f.declaration.trait_diagnostics@).push(
            diagnostic(ast.trait_path_ptr, SemanticDiagnosticKind::NotATrait),
        )
    } else {
        outside_view(f.declaration.trait_diagnostics@)
    }
}

/// Whether only the core library may implement a trait.
pub open spec fn is_compiler_trait(core: CoreInfo, trait_id: TraitId) -> bool {
    ||| trait_id == core.type_eq_trt
    ||| trait_id == core.fn_trt
    ||| trait_id == core.fn_once_trt
    ||| trait_id == core.felt252_dict_value_trt
    ||| trait_id == core.numeric_literal_trt
    ||| trait_id == core.string_literal_trt
}

/// Whether an impl implements a trait that only the core library may implement.
pub open spec fn reimplements_compiler_trait(
    db: SemanticGroup,
    impl_def_id: ImplDefId,
    concrete_trait: Maybe<ConcreteTraitId>,
) -> bool {
    match concrete_trait {
        Ok(id) => is_compiler_trait(db.facts.core, db.spec_trait_long(id).trait_id)
            && db.spec_owning_crate(impl_def_id.module_file_id.0) != Some(
            db.facts.core.core_crate,
        ),
        Err(_) => false,
    }
}

/// What is wrong with where an impl stands.
pub open spec fn reimplementation_diagnostics(
    db: SemanticGroup,
    impl_def_id: ImplDefId,
    ast: ItemImpl,
    concrete_trait: Maybe<ConcreteTraitId>,
) -> Seq<DiagnosticView> {
    if reimplements_compiler_trait(db, impl_def_id, concrete_trait) {
        seq![
            diagnostic(
                ast.trait_path_ptr,
                SemanticDiagnosticKind::CompilerTraitReImplementation {
                    trait_id: db.spec_trait_long(concrete_trait->Ok_0).trait_id,
                },
            ),
        ]
    } else {
        seq![]
    }
}

/// What is wrong with the declaration of an impl.
pub open spec fn declaration_diagnostics(
    db: SemanticGroup,
    impl_def_id: ImplDefId,
    f: ImplDefFacts,
    ast: ItemImpl,
    resolve_trait: bool,
) -> Seq<DiagnosticView> {
    outside_view(f.feature_diagnostics@) + generic_params_diagnostics(f)
        + trait_path_diagnostics(f, ast, resolve_trait) + reimplementation_diagnostics(
        db,
        impl_def_id,
        ast,
        declared_trait(f, resolve_trait),
    ) + outside_view(f.declaration.finalize_diagnostics@)
}

/// The declaration data of an impl.
pub open spec fn is_declaration_data(
    db: SemanticGroup,
    impl_def_id: ImplDefId,
    resolve_trait: bool,
    data: ImplDeclarationData,
) -> bool {
    let f = lookup(db.facts.impl_defs@, impl_def_id)->0;
    let ast = db.spec_impl_ast(impl_def_id)->Ok_0;
    &&& data.diagnostics@ == declaration_diagnostics(db, impl_def_id, f, ast, resolve_trait)
    &&& data.generic_params@ == f.declaration.inference.spec_rewrite_params(generic_params_of(f))
    &&& data.concrete_trait == f.declaration.inference.spec_rewrite_maybe_trait(
        declared_trait(f, resolve_trait),
    )
    &&& data.attributes@ == ast.attributes@
    &&& data.resolver_data == ResolverData {
        id: f.declaration.resolver_id,
        trait_or_impl_ctx: TraitOrImplContext::Impl(impl_def_id),
    }
}

impl SemanticGroup {
    /// Whether the trait of an impl is resolved: not where the declaration depends on itself.
    pub open spec fn resolves_trait(self, impl_def_id: ImplDefId) -> bool {
        !self.facts.cycles.declarations@.contains(impl_def_id)
    }

    /// The generic parameters of an impl.
    pub open spec fn spec_impl_def_generic_params(self, impl_def_id: ImplDefId) -> Maybe<
        Seq<GenericParam>,
    > {
        match self.spec_impl_ast(impl_def_id) {
            Ok(_) => Ok(generic_params_of(lookup(self.facts.impl_defs@, impl_def_id)->0)),
            Err(e) => Err(e),
        }
    }

    /// The trait that an impl implements.
    pub open spec fn spec_impl_def_concrete_trait(self, impl_def_id: ImplDefId) -> Maybe<
        ConcreteTraitId,
    > {
        match self.spec_impl_ast(impl_def_id) {
            Ok(_) => {
                let f = lookup(self.facts.impl_defs@, impl_def_id)->0;
                f.declaration.inference.spec_rewrite_maybe_trait(
                    declared_trait(f, self.resolves_trait(impl_def_id)),
                )
            },
            Err(e) => Err(e),
        }
    }

    /// The trait that the path of an impl names.
    pub open spec fn spec_impl_def_trait(self, impl_def_id: ImplDefId) -> Maybe<TraitId> {
        match self.spec_impl_ast(impl_def_id) {
            Ok(_) => lookup(self.facts.impl_defs@, impl_def_id)->0.named_trait,
            Err(e) => Err(e),
        }
    }

    /// What is wrong with the declaration of an impl.
    pub open spec fn spec_declaration_diagnostics(self, impl_def_id: ImplDefId) -> Seq<
        DiagnosticView,
    > {
        match self.spec_impl_ast(impl_def_id) {
            Ok(ast) => declaration_diagnostics(
                self,
                impl_def_id,
                lookup(self.facts.impl_defs@, impl_def_id)->0,
                ast,
                self.resolves_trait(impl_def_id),
            ),
            Err(_) => seq![],
        }
    }

    /// The declaration data of an impl, by way of the cycle handler where the declaration depends
    /// on itself.
    pub fn impl_declaration_data(&self, impl_def_id: ImplDefId) -> (res: Maybe<ImplDeclarationData>)
        requires
            self.wf(),
        ensures
            res is Ok <==> self.spec_impl_ast(impl_def_id) is Ok,
            res matches Ok(data) ==> is_declaration_data(
                *self,
                impl_def_id,
                self.resolves_trait(impl_def_id),
                data,
            ) && self.sizes().has_params(data.generic_params@) && self.sizes().has_maybe_trait(
                data.concrete_trait,
            ),
    {
        if self.facts.cycles.declarations.contains(&impl_def_id) {
            priv_impl_declaration_data_cycle(self, impl_def_id)
        } else {
            priv_impl_declaration_data(self, impl_def_id)
        }
    }
}

// --- Selectors ---

/// What is wrong with the declaration of an impl.
pub fn impl_semantic_declaration_diagnostics(db: &SemanticGroup, impl_def_id: ImplDefId) -> (res:
    Diagnostics)
    requires
        db.wf(),
    ensures
        res@ == db.spec_declaration_diagnostics(impl_def_id),
{
    match db.impl_declaration_data(impl_def_id) {
        Ok(data) => data.diagnostics,
        Err(_) => Diagnostics::new(),
    }
}

/// The generic parameters of an impl, with what is wrong with them.
pub fn impl_def_generic_params_data(db: &SemanticGroup, impl_def_id: ImplDefId) -> (res: Maybe<
    GenericParamsData,
>)
    requires
        db.wf(),
    ensures
        res is Ok <==> db.spec_impl_ast(impl_def_id) is Ok,
        res matches Ok(data) ==> {
            let f = lookup(db.facts.impl_defs@, impl_def_id)->0;
            &&& data.generic_params@ == generic_params_of(f)
            &&& data.diagnostics@ == generic_params_diagnostics(f)
            &&& data.resolver_data == ResolverData {
                id: f.generics.resolver_id,
                trait_or_impl_ctx: TraitOrImplContext::Neither,
            }
            &&& db.sizes().has_params(data.generic_params@)
        },
{
    proof {
        reveal(crate::db::SemanticFacts::valid);
    }
    let (facts, _) = match db.impl_def(impl_def_id) {
        Ok(found) => found,
        Err(e) => return Err(e),
    };
    let mut diagnostics = SemanticDiagnostics::new();
    diagnostics.extend_outside(&facts.feature_diagnostics);
    diagnostics.extend_outside(&facts.generics.diagnostics);
    diagnostics.extend_outside(&facts.generics.finalize_diagnostics);
    assert(diagnostics@ =~= generic_params_diagnostics(*facts));
    let generic_params = facts.generics.inference.rewrite_params(&facts.generics.generic_params);
    proof {
        facts.generics.inference.lemma_rewrite_valid(db.sizes());
    }
    Ok(
        GenericParamsData {
            generic_params,
            diagnostics: diagnostics.build(),
            resolver_data: ResolverData {
                id: facts.generics.resolver_id,
                trait_or_impl_ctx: TraitOrImplContext::Neither,
            },
        },
    )
}

/// The generic parameters of an impl.
pub fn impl_def_generic_params(db: &SemanticGroup, impl_def_id: ImplDefId) -> (res: Maybe<
    Vec<GenericParam>,
>)
    requires
        db.wf(),
    ensures
        match res {
            Ok(params) => db.spec_impl_def_generic_params(impl_def_id) == Ok::<_, DiagnosticAdded>(
                params@,
            ) && db.sizes().has_params(params@),
            Err(_) => db.spec_impl_def_generic_params(impl_def_id) is Err,
        },
{
    match impl_def_generic_params_data(db, impl_def_id) {
        Ok(data) => Ok(data.generic_params),
        Err(e) => Err(e),
    }
}

/// What name resolution keeps of the declaration of an impl.
pub fn impl_def_resolver_data(db: &SemanticGroup, impl_def_id: ImplDefId) -> (res: Maybe<
    ResolverData,
>)
    requires
        db.wf(),
    ensures
        res == match db.spec_impl_ast(impl_def_id) {
            Ok(_) => Ok(
                ResolverData {
                    id: lookup(db.facts.impl_defs@, impl_def_id)->0.declaration.resolver_id,
                    trait_or_impl_ctx: TraitOrImplContext::Impl(impl_def_id),
                },
            ),
            Err(_) => Err(DiagnosticAdded),
        },
{
    match db.impl_declaration_data(impl_def_id) {
        Ok(data) => Ok(data.resolver_data),
        Err(e) => Err(e),
    }
}

/// The same where the declaration depends on itself.
pub fn impl_def_resolver_data_cycle(db: &SemanticGroup, impl_def_id: ImplDefId) -> (res: Maybe<
    ResolverData,
>)
    requires
        db.wf(),
    ensures
        res == match db.spec_impl_ast(impl_def_id) {
            Ok(_) => Ok(
                ResolverData {
                    id: lookup(db.facts.impl_defs@, impl_def_id)->0.declaration.resolver_id,
                    trait_or_impl_ctx: TraitOrImplContext::Impl(impl_def_id),
                },
            ),
            Err(_) => Err(DiagnosticAdded),
        },
{
    impl_def_resolver_data(db, impl_def_id)
}

/// The trait that an impl implements.
pub fn impl_def_concrete_trait(db: &SemanticGroup, impl_def_id: ImplDefId) -> (res: Maybe<
    ConcreteTraitId,
>)
    requires
        db.wf(),
    ensures
        res == db.spec_impl_def_concrete_trait(impl_def_id),
        db.sizes().has_maybe_trait(res),
{
    match db.impl_declaration_data(impl_def_id) {
        Ok(data) => data.concrete_trait,
        Err(e) => Err(e),
    }
}

/// The same where the declaration depends on itself.
pub fn impl_def_concrete_trait_cycle(db: &SemanticGroup, impl_def_id: ImplDefId) -> (res: Maybe<
    ConcreteTraitId,
>)
    requires
        db.wf(),
    ensures
        res == db.spec_impl_def_concrete_trait(impl_def_id),
        db.sizes().has_maybe_trait(res),
{
    impl_def_concrete_trait(db, impl_def_id)
}

/// The substitution of an impl with its own parameters as arguments.
pub open spec fn is_own_substitution(
    db: SemanticGroup,
    impl_def_id: ImplDefId,
    s: SubstitutionView,
) -> bool {
    let f = lookup(db.facts.impl_defs@, impl_def_id)->0;
    &&& s.self_impl matches Some(imp) && db.has_impl(imp) && (db.spec_impl_long(
        imp,
    ) matches ImplLongId::Concrete(c) && db.has_concrete_impl(c) && db.spec_concrete_impl_long(c) == (
    ConcreteImplLongId { impl_def_id, generic_args: f.generics.params_as_args@ }))
    &&& s == substitution_concat(
        substitution_from_impl(s.self_impl->0),
        substitution_of(generic_params_of(f), f.generics.params_as_args@),
    )
}

/// Whether an impl is a concrete one of a definition and arguments.
pub open spec fn is_impl_of(
    impls: Seq<ImplLongId>,
    concrete_impls: Seq<ConcreteImplView>,
    long: ConcreteImplView,
    imp: ImplId,
) -> bool {
    imp.0 < impls.len() && (impls[imp.0 as int] matches ImplLongId::Concrete(c) && c.0
        < concrete_impls.len() && concrete_impls[c.0 as int] == long)
}

/// The impl that is the concrete one of a definition and arguments; where it is not interned, the
/// id that the next impl is given.
pub open spec fn impl_of(
    impls: Seq<ImplLongId>,
    concrete_impls: Seq<ConcreteImplView>,
    long: ConcreteImplView,
) -> ImplId {
    if exists|imp: ImplId| is_impl_of(impls, concrete_impls, long, imp) {
        choose|imp: ImplId| is_impl_of(impls, concrete_impls, long, imp)
    } else {
        ImplId(impls.len() as u64)
    }
}

impl SemanticGroup {
    /// The substitution of an impl with its own parameters as arguments: the one that it has, or
    /// that it gets where it is interned next.
    pub open spec fn own_substitution(self, impl_def_id: ImplDefId) -> SubstitutionView {
        let f = lookup(self.facts.impl_defs@, impl_def_id)->0;
        let args = f.generics.params_as_args@;
        let imp = impl_of(
            self.interned@.impls,
            self.interned@.concrete_impls,
            ConcreteImplLongId { impl_def_id, generic_args: args },
        );
        substitution_concat(
            substitution_from_impl(imp),
            substitution_of(generic_params_of(f), args),
        )
    }
}

/// An impl has one substitution with its own parameters as arguments, and keeps it as more values
/// are interned.
pub proof fn law_own_substitution_is_stable(
    before: SemanticGroup,
    after: SemanticGroup,
    impl_def_id: ImplDefId,
    s: SubstitutionView,
)
    requires
        before.wf(),
        after.wf(),
        after.grown_from(before),
        is_own_substitution(before, impl_def_id, s),
    ensures
        before.own_substitution(impl_def_id) == s,
        after.own_substitution(impl_def_id) == s,
        is_own_substitution(after, impl_def_id, s),
{
    lemma_own_substitution_unique(before, impl_def_id, s);
    let imp = s.self_impl->0;
    assert(after.spec_impl_long(imp) == before.spec_impl_long(imp));
    let c = before.spec_impl_long(imp)->Concrete_0;
    assert(after.spec_concrete_impl_long(c) == before.spec_concrete_impl_long(c));
    assert(is_own_substitution(after, impl_def_id, s));
    lemma_own_substitution_unique(after, impl_def_id, s);
}

proof fn lemma_own_substitution_unique(
    db: SemanticGroup,
    impl_def_id: ImplDefId,
    s: SubstitutionView,
)
    requires
        db.wf(),
        is_own_substitution(db, impl_def_id, s),
    ensures
        db.own_substitution(impl_def_id) == s,
{
    let f = lookup(db.facts.impl_defs@, impl_def_id)->0;
    let long = ConcreteImplLongId { impl_def_id, generic_args: f.generics.params_as_args@ };
    let impls = db.interned@.impls;
    let concrete_impls = db.interned@.concrete_impls;
    let a = s.self_impl->0;
    let b = impl_of(impls, concrete_impls, long);
    assert(is_impl_of(impls, concrete_impls, long, a));
    assert(is_impl_of(impls, concrete_impls, long, b));
    let c = impls[a.0 as int]->Concrete_0;
    let d = impls[b.0 as int]->Concrete_0;
    assert(concrete_impls[c.0 as int] == concrete_impls[d.0 as int]);
    assert(c.0 == d.0);
    assert(a.0 == b.0);
}

/// The substitution that an impl gets where it is interned next is the one that it then has.
proof fn lemma_own_substitution_interned(
    before: SemanticGroup,
    after: SemanticGroup,
    impl_def_id: ImplDefId,
    s: SubstitutionView,
)
    requires
        before.wf(),
        after.wf(),
        after.grown_from(before),
        after.interned@.impls.len() <= before.interned@.impls.len() + 1,
        is_own_substitution(after, impl_def_id, s),
    ensures
        before.own_substitution(impl_def_id) == s,
        after.own_substitution(impl_def_id) == s,
{
    lemma_own_substitution_unique(after, impl_def_id, s);
    let f = lookup(before.facts.impl_defs@, impl_def_id)->0;
    let long = ConcreteImplLongId { impl_def_id, generic_args: f.generics.params_as_args@ };
    let impls = before.interned@.impls;
    let concrete_impls = before.interned@.concrete_impls;
    if exists|imp: ImplId| is_impl_of(impls, concrete_impls, long, imp) {
        law_own_substitution_is_stable(
            before,
            after,
            impl_def_id,
            before.own_substitution(impl_def_id),
        );
    } else {
        let imp = s.self_impl->0;
        if imp.0 < impls.len() {
            assert(before.interned@.impl_parts(imp.0 as int, impls[imp.0 as int]));
            assert(impls[imp.0 as int] == after.interned@.impls[imp.0 as int]);
            let c = impls[imp.0 as int]->Concrete_0;
            assert(concrete_impls[c.0 as int] == after.interned@.concrete_impls[c.0 as int]);
            assert(is_impl_of(impls, concrete_impls, long, imp));
        }
        assert(imp.0 == impls.len());
    }
}

/// The substitution of an impl with its own parameters as arguments.
pub fn impl_def_substitution(db: &mut SemanticGroup, impl_def_id: ImplDefId) -> (res: Maybe<
    GenericSubstitution,
>)
    requires
        old(db).wf(),
    ensures
        final(db).wf(),
        final(db).grown_from(*old(db)),
        res is Ok <==> old(db).spec_impl_ast(impl_def_id) is Ok,
        res matches Ok(s) ==> is_own_substitution(*final(db), impl_def_id, s@) && s@
            == final(db).own_substitution(impl_def_id),
        final(db).own_substitution(impl_def_id) == old(db).own_substitution(impl_def_id),
{
    proof {
        reveal(crate::db::SemanticFacts::valid);
    }
    let ghost before = *db;
    let generic_args = match db.impl_def(impl_def_id) {
        Ok((facts, _)) => copy_ids(&facts.generics.params_as_args),
        Err(e) => return Err(e),
    };
    let id = db.intern_concrete_impl(ConcreteImplLongId { impl_def_id, generic_args });
    let res = id.substitution(db);
    proof {
        if let Ok(s) = &res {
            lemma_own_substitution_interned(before, *db, impl_def_id, s@);
        }
    }
    res
}

/// The attributes of an impl.
pub fn impl_def_attributes(db: &SemanticGroup, impl_def_id: ImplDefId) -> (res: Maybe<
    Vec<Attribute>,
>)
    requires
        db.wf(),
    ensures
        match res {
            Ok(attributes) => db.spec_impl_ast(impl_def_id) matches Ok(ast) && attributes@
                == ast.attributes@,
            Err(_) => db.spec_impl_ast(impl_def_id) is Err,
        },
{
    match db.impl_declaration_data(impl_def_id) {
        Ok(data) => Ok(data.attributes),
        Err(e) => Err(e),
    }
}

/// The trait that the path of an impl names.
pub fn impl_def_trait(db: &SemanticGroup, impl_def_id: ImplDefId) -> (res: Maybe<TraitId>)
    ensures
        res == db.spec_impl_def_trait(impl_def_id),
{
    match db.impl_def(impl_def_id) {
        Ok((facts, _)) => facts.named_trait,
        Err(e) => Err(e),
    }
}

// --- Computation ---

/// The declaration data of an impl whose declaration depends on itself.
pub fn priv_impl_declaration_data_cycle(db: &SemanticGroup, impl_def_id: ImplDefId) -> (res: Maybe<
    ImplDeclarationData,
>)
    requires
        db.wf(),
    ensures
        res is Ok <==> db.spec_impl_ast(impl_def_id) is Ok,
        res matches Ok(data) ==> is_declaration_data(*db, impl_def_id, false, data)
            && db.sizes().has_params(data.generic_params@) && db.sizes().has_maybe_trait(
            data.concrete_trait,
        ),
{
    priv_impl_declaration_data_inner(db, impl_def_id, false)
}

/// The declaration data of an impl.
pub fn priv_impl_declaration_data(db: &SemanticGroup, impl_def_id: ImplDefId) -> (res: Maybe<
    ImplDeclarationData,
>)
    requires
        db.wf(),
    ensures
        res is Ok <==> db.spec_impl_ast(impl_def_id) is Ok,
        res matches Ok(data) ==> is_declaration_data(*db, impl_def_id, true, data)
            && db.sizes().has_params(data.generic_params@) && db.sizes().has_maybe_trait(
            data.concrete_trait,
        ),
{
    priv_impl_declaration_data_inner(db, impl_def_id, true)
}

/// The declaration data of an impl. Where the declaration depends on itself the trait is not
/// resolved.
pub fn priv_impl_declaration_data_inner(
    db: &SemanticGroup,
    impl_def_id: ImplDefId,
    resolve_trait: bool,
) -> (res: Maybe<ImplDeclarationData>)
    requires
        db.wf(),
    ensures
        res is Ok <==> db.spec_impl_ast(impl_def_id) is Ok,
        res matches Ok(data) ==> is_declaration_data(*db, impl_def_id, resolve_trait, data)
            && db.sizes().has_params(data.generic_params@) && db.sizes().has_maybe_trait(
            data.concrete_trait,
        ),
{
    proof {
        reveal(crate::db::SemanticFacts::valid);
    }
    let mut diagnostics = SemanticDiagnostics::new();
    let (facts, ast) = match db.impl_def(impl_def_id) {
        Ok(found) => found,
        Err(e) => return Err(e),
    };

    // Generic params.
    let generic_params_data = match impl_def_generic_params_data(db, impl_def_id) {
        Ok(data) => data,
        Err(e) => return Err(e),
    };
    let generic_params = generic_params_data.generic_params;
    diagnostics.extend_outside(&facts.feature_diagnostics);
    diagnostics.extend(generic_params_data.diagnostics);

    let concrete_trait: Maybe<ConcreteTraitId> = if resolve_trait {
        diagnostics.extend_outside(&facts.declaration.trait_diagnostics);
        match facts.declaration.trait_item {
            Ok(ResolvedConcreteItem::Trait(id)) => Ok(id),
            Ok(ResolvedConcreteItem::SelfTrait(id)) => Ok(id),
            Ok(ResolvedConcreteItem::Other(_)) => Err(
                diagnostics.report(ast.trait_path_ptr, SemanticDiagnosticKind::NotATrait),
            ),
            Err(e) => Err(e),
        }
    } else {
        Err(diagnostics.report(ast.trait_path_ptr, SemanticDiagnosticKind::ImplRequirementCycle))
    };
    assert(diagnostics@ =~= outside_view(facts.feature_diagnostics@)
        + generic_params_diagnostics(*facts) + trait_path_diagnostics(*facts, *ast, resolve_trait));

    // Check for reimplementation of compilers' Traits.
    if let Ok(id) = concrete_trait {
        let info = db.facts.core;
        let trait_id = db.trait_long(id).trait_id;
        let owner = db.owning_crate(impl_def_id.module_file_id.0);
        let in_core = match owner {
            Some(crate_id) => crate_id == info.core_crate,
            None => false,
        };
        if (trait_id == info.type_eq_trt || trait_id == info.fn_trt || trait_id == info.fn_once_trt
            || trait_id == info.felt252_dict_value_trt || trait_id == info.numeric_literal_trt
            || trait_id == info.string_literal_trt) && !in_core {
            diagnostics.report(
                ast.trait_path_ptr,
                SemanticDiagnosticKind::CompilerTraitReImplementation { trait_id },
            );
        }
    }
    // Check fully resolved.

    diagnostics.extend_outside(&facts.declaration.finalize_diagnostics);
    assert(diagnostics@ =~= declaration_diagnostics(
        *db,
        impl_def_id,
        *facts,
        *ast,
        resolve_trait,
    ));
    proof {
        facts.declaration.inference.lemma_rewrite_valid(db.sizes());
    }
    Ok(
        ImplDeclarationData {
            diagnostics: diagnostics.build(),
            generic_params: facts.declaration.inference.rewrite_params(&generic_params),
            concrete_trait: facts.declaration.inference.rewrite_maybe_trait(concrete_trait),
            attributes: copy_ids(&ast.attributes),
            resolver_data: ResolverData {
                id: facts.declaration.resolver_id,
                trait_or_impl_ctx: TraitOrImplContext::Impl(impl_def_id),
            },
        },
    )
}

impl ConcreteImplId {
    /// The substitution that a concrete impl stands for.
    pub open spec fn is_substitution(self, db: SemanticGroup, s: SubstitutionView) -> bool {
        let long = db.spec_concrete_impl_long(self);
        &&& s.self_impl matches Some(imp) && db.has_impl(imp) && db.spec_impl_long(imp)
            == ImplLongId::Concrete(self)
        &&& s == substitution_concat(
            substitution_from_impl(s.self_impl->0),
            substitution_of(
                db.spec_impl_def_generic_params(long.impl_def_id)->Ok_0,
                long.generic_args,
            ),
        )
    }

    /// Gives the parameters of the impl definition their arguments, and knows the impl itself.
    pub fn substitution(&self, db: &mut SemanticGroup) -> (res: Maybe<GenericSubstitution>)
        requires
            old(db).wf(),
            old(db).has_concrete_impl(*self),
        ensures
            final(db).wf(),
            final(db).grown_from(*old(db)),
            res is Ok <==> old(db).spec_impl_def_generic_params(
                old(db).spec_concrete_impl_long(*self).impl_def_id,
            ) is Ok,
            res matches Ok(s) ==> self.is_substitution(*final(db), s@),
            final(db).interned@.impls == interned_with(
                old(db).interned@.impls,
                ImplLongId::Concrete(*self),
            ),
    {
        let ghost before = *db;
        let imp = db.intern_impl(ImplLongId::Concrete(*self));
        assert(before.spec_concrete_impl_long(*self) == db.spec_concrete_impl_long(*self));
        let params = match impl_def_generic_params(db, db.concrete_impl_long(*self).impl_def_id) {
            Ok(params) => params,
            Err(e) => return Err(e),
        };
        Ok(
            GenericSubstitution::from_impl(imp).concat(
                GenericSubstitution::new(&params, &db.concrete_impl_long(*self).generic_args),
            ),
        )
    }
}

impl SemanticGroup {
    /// The substitution that a concrete impl stands for, by the impl that it is.
    pub open spec fn spec_impl_substitution(self, imp: ImplId, id: ConcreteImplId) -> Maybe<
        SubstitutionView,
    > {
        let long = self.spec_concrete_impl_long(id);
        match self.spec_impl_def_generic_params(long.impl_def_id) {
            Ok(params) => Ok(
                substitution_concat(
                    substitution_from_impl(imp),
                    substitution_of(params, long.generic_args),
                ),
            ),
            Err(e) => Err(e),
        }
    }

    /// The substitution that a concrete impl stands for, by the impl that it is.
    pub fn impl_substitution(&self, imp: ImplId, id: ConcreteImplId) -> (res: Maybe<
        GenericSubstitution,
    >)
        requires
            self.wf(),
            self.has_concrete_impl(id),
        ensures
            match res {
                Ok(s) => self.spec_impl_substitution(imp, id) == Ok::<_, DiagnosticAdded>(s@),
                Err(_) => self.spec_impl_substitution(imp, id) is Err,
            },
    {
        let long = self.concrete_impl_long(id);
        match impl_def_generic_params(self, long.impl_def_id) {
            Ok(params) => Ok(
                GenericSubstitution::from_impl(imp).concat(
                    GenericSubstitution::new(&params, &long.generic_args),
                ),
            ),
            Err(e) => Err(e),
        }
    }
}

// --- Laws ---

/// The substitution of a concrete impl is that of the impl it is interned as.
pub proof fn law_substitution_of_interned_impl(
    db: SemanticGroup,
    imp: ImplId,
    id: ConcreteImplId,
    s: SubstitutionView,
)
    requires
        db.wf(),
        db.has_impl(imp),
        db.spec_impl_long(imp) == ImplLongId::Concrete(id),
        db.spec_impl_def_generic_params(db.spec_concrete_impl_long(id).impl_def_id) is Ok,
        id.is_substitution(db, s),
    ensures
        db.spec_impl_substitution(imp, id) == Ok::<_, DiagnosticAdded>(s),
{
    let other = s.self_impl->0;
    assert(db.interned@.impls[imp.0 as int] == db.interned@.impls[other.0 as int]);
    assert(imp.0 == other.0);
}

/// Where the declaration of an impl depends on itself, the impl implements no trait, and that is
/// reported at the path of the trait.
pub proof fn law_cyclic_declaration(db: SemanticGroup, impl_def_id: ImplDefId)
    requires
        db.facts.cycles.declarations@.contains(impl_def_id),
        db.spec_impl_ast(impl_def_id) is Ok,
    ensures
        db.spec_impl_def_concrete_trait(impl_def_id) is Err,
        db.spec_declaration_diagnostics(impl_def_id).contains(
            diagnostic(
                db.spec_impl_ast(impl_def_id)->Ok_0.trait_path_ptr,
                SemanticDiagnosticKind::ImplRequirementCycle,
            ),
        ),
{
    let f = lookup(db.facts.impl_defs@, impl_def_id)->0;
    let ast = db.spec_impl_ast(impl_def_id)->Ok_0;
    let before = outside_view(f.feature_diagnostics@) + generic_params_diagnostics(f);
    let all = db.spec_declaration_diagnostics(impl_def_id);
    assert(all[before.len() as int] == diagnostic(
        ast.trait_path_ptr,
        SemanticDiagnosticKind::ImplRequirementCycle,
    ));
}

/// An impl of a trait that only the core library may implement is reported outside the core
/// library, and never in it.
pub proof fn law_compiler_traits_stay_in_core(db: SemanticGroup, impl_def_id: ImplDefId)
    requires
        db.spec_impl_ast(impl_def_id) is Ok,
    ensures
        ({
            let f = lookup(db.facts.impl_defs@, impl_def_id)->0;
            let kind = SemanticDiagnosticKind::CompilerTraitReImplementation {
                trait_id: db.spec_trait_long(
                    declared_trait(f, db.resolves_trait(impl_def_id))->Ok_0,
                ).trait_id,
            };
            db.spec_declaration_diagnostics(impl_def_id).contains(
                diagnostic(db.spec_impl_ast(impl_def_id)->Ok_0.trait_path_ptr, kind),
            ) <==> reimplements_compiler_trait(
                db,
                impl_def_id,
                declared_trait(f, db.resolves_trait(impl_def_id)),
            )
        }),
{
    let f = lookup(db.facts.impl_defs@, impl_def_id)->0;
    let ast = db.spec_impl_ast(impl_def_id)->Ok_0;
    let resolve = db.resolves_trait(impl_def_id);
    let before = outside_view(f.feature_diagnostics@) + generic_params_diagnostics(f)
        + trait_path_diagnostics(f, ast, resolve);
    let report = reimplementation_diagnostics(db, impl_def_id, ast, declared_trait(f, resolve));
    let after = outside_view(f.declaration.finalize_diagnostics@);
    let all = db.spec_declaration_diagnostics(impl_def_id);
    assert(all =~= before + report + after);
    if report.len() > 0 {
        assert(all[before.len() as int] == report[0]);
    } else {
        assert forall|i: int| 0 <= i < all.len() implies !((#[trigger] all[i]).kind
            is CompilerTraitReImplementation) by {
            if i >= before.len() {
                assert(all[i] == after[i - before.len()]);
            } else {
                assert(all[i] == before[i]);
            }
        }
    }
}

/// The concrete trait that one is settled as: the recorded one, or the trait itself.
pub open spec fn settled_trait(inference: Inference, t: ConcreteTraitId) -> ConcreteTraitId {
    if has_key(inference.concrete_traits@, t) {
        lookup(inference.concrete_traits@, t)->0
    } else {
        t
    }
}

/// An impl implements the trait that its path is resolved to, settled by inference. It implements
/// none where its syntax is not known, where its declaration depends on itself, or where the path
/// stands for something else.
pub proof fn law_impls_implement_the_trait_of_their_path(db: SemanticGroup, impl_def_id: ImplDefId)
    ensures
        match db.spec_impl_def_concrete_trait(impl_def_id) {
            Ok(t) => {
                &&& !db.facts.cycles.declarations@.contains(impl_def_id)
                &&& lookup(db.facts.impl_defs@, impl_def_id) matches Some(f) && {
                    &&& f.ast matches Ok(Some(_))
                    &&& {
                        ||| f.declaration.trait_item matches Ok(ResolvedConcreteItem::Trait(id))
                            && t == settled_trait(f.declaration.inference, id)
                        ||| f.declaration.trait_item matches Ok(ResolvedConcreteItem::SelfTrait(id))
                            && t == settled_trait(f.declaration.inference, id)
                    }
                }
            },
            Err(_) => {
                ||| db.facts.cycles.declarations@.contains(impl_def_id)
                ||| !has_key(db.facts.impl_defs@, impl_def_id)
                ||| lookup(db.facts.impl_defs@, impl_def_id) matches Some(f) && (!(f.ast matches Ok(
                    Some(_),
                )) || f.declaration.trait_item is Err || f.declaration.trait_item matches Ok(
                    ResolvedConcreteItem::Other(_),
                ))
            },
        },
        db.spec_impl_def_trait(impl_def_id) matches Ok(named) ==> (lookup(
            db.facts.impl_defs@,
            impl_def_id,
        ) matches Some(f) && (f.named_trait matches Ok(n) && n == named)),
{
}

/// All that is wrong with the declaration of an impl is reported: what other stages report of its
/// feature attributes, its generic parameters, the path of its trait and what inference could not
/// settle, and that the path stands for no trait.
pub proof fn law_declarations_are_reported_whole(
    db: SemanticGroup,
    impl_def_id: ImplDefId,
    f: ImplDefFacts,
    ast: ItemImpl,
    d: OutsideDiagnostic,
)
    requires
        lookup(db.facts.impl_defs@, impl_def_id) == Some(f),
        f.ast matches Ok(Some(written)) && written == ast,
    ensures
        ({
            let found = db.spec_declaration_diagnostics(impl_def_id);
            let said = passed_on(d);
            &&& f.feature_diagnostics@.contains(d) || f.generics.diagnostics@.contains(d)
                || f.generics.finalize_diagnostics@.contains(d)
                || f.declaration.finalize_diagnostics@.contains(d) ==> found.contains(said)
            &&& !db.facts.cycles.declarations@.contains(impl_def_id)
                && f.declaration.trait_diagnostics@.contains(d) ==> found.contains(said)
            &&& found.contains(said) ==> f.feature_diagnostics@.contains(d)
                || f.generics.diagnostics@.contains(d) || f.generics.finalize_diagnostics@.contains(
                d,
            ) || f.declaration.finalize_diagnostics@.contains(d)
                || f.declaration.trait_diagnostics@.contains(d)
            &&& !db.facts.cycles.declarations@.contains(impl_def_id) ==> (found.contains(
                SemanticDiagnostic {
                    stable_ptr: ast.trait_path_ptr,
                    kind: SemanticDiagnosticKind::NotATrait,
                },
            ) <==> f.declaration.trait_item matches Ok(ResolvedConcreteItem::Other(_)))
        }),
{
    let found = db.spec_declaration_diagnostics(impl_def_id);
    let resolve = db.resolves_trait(impl_def_id);
    let feature = outside_view(f.feature_diagnostics@);
    let params = outside_view(f.generics.diagnostics@);
    let params_left = outside_view(f.generics.finalize_diagnostics@);
    let path = trait_path_diagnostics(f, ast, resolve);
    let path_outside = outside_view(f.declaration.trait_diagnostics@);
    let again = reimplementation_diagnostics(db, impl_def_id, ast, declared_trait(f, resolve));
    let left = outside_view(f.declaration.finalize_diagnostics@);
    let said = passed_on(d);
    let not_a_trait: DiagnosticView = diagnostic(
        ast.trait_path_ptr,
        SemanticDiagnosticKind::NotATrait,
    );
    lemma_outside_members(f.feature_diagnostics@, d);
    lemma_outside_members(f.generics.diagnostics@, d);
    lemma_outside_members(f.generics.finalize_diagnostics@, d);
    lemma_outside_members(f.declaration.trait_diagnostics@, d);
    lemma_outside_members(f.declaration.finalize_diagnostics@, d);
    assert forall|x: DiagnosticView| #[trigger]
        found.contains(x) <==> feature.contains(x) || params.contains(x) || params_left.contains(x)
            || path.contains(x) || again.contains(x) || left.contains(x) by {
        lemma_concat_members(feature, params, x);
        lemma_concat_members(feature + params, params_left, x);
        let generics = feature + params + params_left;
        lemma_concat_members(feature, generics, x);
        lemma_concat_members(feature + generics, path, x);
        lemma_concat_members(feature + generics + path, again, x);
        lemma_concat_members(feature + generics + path + again, left, x);
    }
    assert forall|x: DiagnosticView| #[trigger] again.contains(x) implies x.kind
        is CompilerTraitReImplementation by {}
    if resolve {
        if f.declaration.trait_item matches Ok(ResolvedConcreteItem::Other(_)) {
            assert(path == path_outside + seq![not_a_trait]) by {
                assert(path_outside.push(not_a_trait) =~= path_outside + seq![not_a_trait]);
            }
            assert forall|x: DiagnosticView| #[trigger]
                path.contains(x) <==> path_outside.contains(x) || x == not_a_trait by {
                lemma_concat_members(path_outside, seq![not_a_trait], x);
                assert(seq![not_a_trait][0] == not_a_trait);
            }
        }
    }
    assert(!feature.contains(not_a_trait) && !params.contains(not_a_trait)
        && !params_left.contains(not_a_trait) && !path_outside.contains(not_a_trait)
        && !left.contains(not_a_trait));
}

/// The generic parameters that are recorded of an impl definition.
pub open spec fn recorded_params(db: SemanticGroup, impl_def_id: ImplDefId) -> Seq<GenericParam> {
    match lookup(db.facts.impl_defs@, impl_def_id) {
        Some(f) => f.generics.generic_params@,
        None => seq![],
    }
}

/// The substitution of a concrete impl knows the impl itself, and gives each generic parameter of
/// the definition the argument at its place, and no other parameter any. There is one exactly where
/// the syntax of the definition is known.
pub proof fn law_concrete_impls_give_parameters_their_arguments(
    db: SemanticGroup,
    imp: ImplId,
    id: ConcreteImplId,
)
    ensures
        ({
            let long = db.interned@.concrete_impls[id.0 as int];
            let params = recorded_params(db, long.impl_def_id);
            &&& db.spec_impl_substitution(imp, id) is Ok <==> (lookup(
                db.facts.impl_defs@,
                long.impl_def_id,
            ) matches Some(f) && f.ast matches Ok(Some(_)))
            &&& db.spec_impl_substitution(imp, id) matches Ok(s) ==> {
                &&& s.self_impl == Some(imp)
                &&& forall|p: GenericParamId|
                    (#[trigger] lookup(s.param_to_arg, p)) matches Some(arg) ==> exists|i: int|
                        0 <= i < params.len() && i < long.generic_args.len()
                            && params[i].spec_id() == p && #[trigger] long.generic_args[i] == arg
                &&& (forall|j: int, k: int|
                    0 <= j < k < params.len() ==> (#[trigger] params[j]).spec_id() != (
                    #[trigger] params[k]).spec_id()) ==> forall|i: int|
                    0 <= i < params.len() && i < long.generic_args.len() ==> lookup(
                        s.param_to_arg,
                        (#[trigger] params[i]).spec_id(),
                    ) == Some(long.generic_args[i])
            }
        }),
{
    let long = db.spec_concrete_impl_long(id);
    if let Ok(s) = db.spec_impl_substitution(imp, id) {
        let f = lookup(db.facts.impl_defs@, long.impl_def_id)->0;
        let raw = f.generics.generic_params@;
        let params = generic_params_of(f);
        let args = long.generic_args;
        let pairs = param_arg_pairs(params, args);
        let empty = Seq::<(GenericParamId, GenericArgumentId)>::empty();
        let given = substitution_of(params, args).param_to_arg;
        assert forall|i: int| 0 <= i < raw.len() implies (#[trigger] params[i]).spec_id()
            == raw[i].spec_id() by {}
        assert(unique_keys(given)) by {
            if pairs.len() > 0 {
                lemma_extend_values(empty, pairs, pairs[0].0);
            }
        }
        assert forall|p: GenericParamId|
            (#[trigger] lookup(s.param_to_arg, p)) matches Some(arg) ==> exists|i: int|
                0 <= i < raw.len() && i < args.len() && raw[i].spec_id() == p
                    && #[trigger] args[i] == arg by {
            law_later_substitution_wins(
                substitution_from_impl(imp),
                substitution_of(params, args),
                p,
            );
            assert(lookup(s.param_to_arg, p) == lookup(given, p));
            lemma_extend_values(empty, pairs, p);
            if let Some(arg) = lookup(given, p) {
                let i = choose|i: int| 0 <= i < pairs.len() && #[trigger] pairs[i] == (p, arg);
                assert(args[i] == arg && raw[i].spec_id() == p);
            }
        }
        if forall|j: int, k: int|
            0 <= j < k < raw.len() ==> (#[trigger] raw[j]).spec_id() != (
            #[trigger] raw[k]).spec_id() {
            assert forall|j: int, k: int| 0 <= j < k < params.len() implies (
            #[trigger] params[j]).spec_id() != (#[trigger] params[k]).spec_id() by {
                assert(raw[j].spec_id() != raw[k].spec_id());
            }
            assert forall|i: int| 0 <= i < raw.len() && i < args.len() implies lookup(
                s.param_to_arg,
                (#[trigger] raw[i]).spec_id(),
            ) == Some(args[i]) by {
                assert(params[i].spec_id() == raw[i].spec_id());
                law_parameters_get_their_arguments(params, args, i);
                law_later_substitution_wins(
                    substitution_from_impl(imp),
                    substitution_of(params, args),
                    raw[i].spec_id(),
                );
            }
        }
    }
}

/// What is found after entries are stored was stored.
proof fn lemma_extend_values<K, V>(s: Seq<(K, V)>, t: Seq<(K, V)>, k: K)
    requires
        s.len() == 0,
    ensures
        unique_keys(assoc_extend(s, t)),
        lookup(assoc_extend(s, t), k) matches Some(v) ==> exists|i: int|
            0 <= i < t.len() && #[trigger] t[i] == (k, v),
    decreases t.len(),
{
    if t.len() > 0 {
        let init = t.drop_last();
        let (key, value) = t.last();
        lemma_extend_values(s, init, k);
        lemma_insert_unique(assoc_extend(s, init), key, value);
        law_get_after_insert(assoc_extend(s, init), key, value, k);
        if let Some(v) = lookup(assoc_extend(s, t), k) {
            if k == key {
                assert(t[t.len() - 1] == (k, v));
            } else {
                let i = choose|i: int| 0 <= i < init.len() && #[trigger] init[i] == (k, v);
                assert(t[i] == (k, v));
            }
        }
    }
}

/// The own substitution of an impl knows the concrete impl of its definition with its own parameters
/// as arguments, and gives each of its parameters the argument that stands for it.
pub proof fn law_impls_stand_for_themselves_in_their_own_substitution(
    db: SemanticGroup,
    impl_def_id: ImplDefId,
    f: ImplDefFacts,
)
    requires
        lookup(db.facts.impl_defs@, impl_def_id) == Some(f),
        f.ast matches Ok(Some(_)),
        is_own_substitution(db, impl_def_id, db.own_substitution(impl_def_id)),
    ensures
        ({
            let s = db.own_substitution(impl_def_id);
            let params = f.generics.generic_params@;
            let args = f.generics.params_as_args@;
            &&& s.self_impl matches Some(imp) && imp.0 < db.interned@.impls.len() && (
            db.interned@.impls[imp.0 as int] matches ImplLongId::Concrete(c)
                && db.interned@.concrete_impls[c.0 as int].impl_def_id == impl_def_id
                && db.interned@.concrete_impls[c.0 as int].generic_args == args)
            &&& (forall|j: int, k: int|
                0 <= j < k < params.len() ==> (#[trigger] params[j]).spec_id() != (
                #[trigger] params[k]).spec_id()) ==> forall|i: int|
                0 <= i < params.len() && i < args.len() ==> lookup(
                    s.param_to_arg,
                    (#[trigger] params[i]).spec_id(),
                ) == Some(args[i])
        }),
{
    let s = db.own_substitution(impl_def_id);
    let imp = s.self_impl->0;
    let c = db.interned@.impls[imp.0 as int]->Concrete_0;
    law_concrete_impls_give_parameters_their_arguments(db, imp, c);
    assert(db.spec_impl_substitution(imp, c) == Ok::<_, DiagnosticAdded>(s));
}

/// The generic parameters of an impl are those that are recorded for it, as inference settles them.
/// An impl has them exactly where its syntax is known.
pub proof fn law_generic_parameters_are_settled(db: SemanticGroup, impl_def_id: ImplDefId)
    ensures
        match lookup(db.facts.impl_defs@, impl_def_id) {
            Some(f) => {
                &&& db.spec_impl_def_generic_params(impl_def_id) is Ok <==> (f.ast matches Ok(
                    Some(_),
                ))
                &&& db.spec_impl_def_generic_params(impl_def_id) matches Ok(params) ==> {
                    &&& params.len() == f.generics.generic_params@.len()
                    &&& forall|i: int|
                        0 <= i < params.len() ==> settles_param(
                            f.generics.inference,
                            f.generics.generic_params@[i],
                            #[trigger] params[i],
                        )
                }
            },
            None => db.spec_impl_def_generic_params(impl_def_id) is Err,
        },
{
}

/// An impl of one of the traits that the compiler implements itself is reported, at its path, exactly
/// if it does not stand in the core library.
pub proof fn law_compiler_traits_are_left_to_the_core_library(
    db: SemanticGroup,
    impl_def_id: ImplDefId,
    f: ImplDefFacts,
    ast: ItemImpl,
    t: ConcreteTraitId,
)
    requires
        lookup(db.facts.impl_defs@, impl_def_id) == Some(f),
        f.ast matches Ok(Some(written)) && written == ast,
        !db.facts.cycles.declarations@.contains(impl_def_id),
        f.declaration.trait_item matches Ok(item) && (item == ResolvedConcreteItem::Trait(t) || item
            == ResolvedConcreteItem::SelfTrait(t)),
    ensures
        ({
            let core = db.facts.core;
            let trait_id = db.interned@.concrete_traits[t.0 as int].trait_id;
            let owner = match impl_def_id.module_file_id.0 {
                ModuleId::CrateRoot(crate_id) => Some(crate_id),
                ModuleId::Submodule(id) => lookup(db.facts.submodule_crates@, id),
            };
            db.spec_declaration_diagnostics(impl_def_id).contains(
                SemanticDiagnostic {
                    stable_ptr: ast.trait_path_ptr,
                    kind: SemanticDiagnosticKind::CompilerTraitReImplementation { trait_id },
                },
            ) <==> owner != Some(core.core_crate) && seq![
                core.type_eq_trt,
                core.fn_trt,
                core.fn_once_trt,
                core.felt252_dict_value_trt,
                core.numeric_literal_trt,
                core.string_literal_trt,
            ].contains(trait_id)
        }),
{
    let core = db.facts.core;
    let trait_id = db.interned@.concrete_traits[t.0 as int].trait_id;
    let six = seq![
        core.type_eq_trt,
        core.fn_trt,
        core.fn_once_trt,
        core.felt252_dict_value_trt,
        core.numeric_literal_trt,
        core.string_literal_trt,
    ];
    assert(six[0] == core.type_eq_trt && six[1] == core.fn_trt && six[2] == core.fn_once_trt
        && six[3] == core.felt252_dict_value_trt && six[4] == core.numeric_literal_trt && six[5]
        == core.string_literal_trt);
    assert(is_compiler_trait(core, trait_id) <==> six.contains(trait_id));
    law_compiler_traits_stay_in_core(db, impl_def_id);
}

/// The declaration of an impl is kept as it is written and recorded: its attributes, what name
/// resolution keeps of it, its generic parameters, and its trait as inference settles it.
pub proof fn law_declarations_are_kept_as_recorded(
    db: SemanticGroup,
    impl_def_id: ImplDefId,
    f: ImplDefFacts,
    ast: ItemImpl,
    data: ImplDeclarationData,
)
    requires
        lookup(db.facts.impl_defs@, impl_def_id) == Some(f),
        f.ast matches Ok(Some(written)) && written == ast,
        is_declaration_data(db, impl_def_id, db.resolves_trait(impl_def_id), data),
    ensures
        data.attributes@ == ast.attributes@,
        data.resolver_data.id == f.declaration.resolver_id,
        data.resolver_data.trait_or_impl_ctx == TraitOrImplContext::Impl(impl_def_id),
        data.concrete_trait == db.spec_impl_def_concrete_trait(impl_def_id),
        data.diagnostics@ == db.spec_declaration_diagnostics(impl_def_id),
        data.generic_params@.len() == f.generics.generic_params@.len(),
        forall|i: int|
            0 <= i < data.generic_params@.len() ==> (#[trigger] data.generic_params@[i]).spec_id()
                == f.generics.generic_params@[i].spec_id(),
{
    assert forall|i: int| 0 <= i < data.generic_params@.len() implies (
    #[trigger] data.generic_params@[i]).spec_id() == f.generics.generic_params@[i].spec_id() by {
        assert(generic_params_of(f)[i].spec_id() == f.generics.generic_params@[i].spec_id());
    }
}

} // verus!
