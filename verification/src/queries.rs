//! What the recorded facts answer.

use vstd::prelude::*;

use crate::collections::{has_key, lookup, Key, OrderedHashMap, OrderedHashSet};
use crate::context::{ContextView, ImplLookupContext};
use crate::db::{substituted, SemanticFacts, SemanticGroup};
use crate::diagnostics::{skip_diagnostic, DiagnosticAdded, InferenceError, Maybe};
use crate::facts::{
    ConcreteTraitConstantId, ConcreteTraitGenericFunctionId, ConcreteTraitImplId, ImplDefFacts,
    ImplQuestion, Parameter, ResolvedGenericItem, Signature, SignatureView, TraitPair, TypeInfo,
    TypeQuestion,
};
use crate::ids::{
    ConcreteTraitId, ConstValueId, CrateId, GenericArgumentHead, GenericParamId, ImplDefId, ImplId,
    ModuleId, SmolStrId, TraitConstantId, TraitFunctionId, TraitId, TraitImplId, TraitTypeId,
    TypeConstraints, TypeId, UseId,
};
use crate::model::{
    GenericArgumentId, GenericParam, GenericParamConst, GenericParamImpl, ImplConstantId,
    ImplImplId,
};
use crate::substitution::{GenericSubstitution, Substituted, SubstitutionView};
use crate::syntax::ItemImpl;

verus! {

/// A recorded resolution; what is not recorded cannot be resolved.
pub open spec fn recorded<T>(m: Option<Maybe<T>>) -> Maybe<T> {
    match m {
        Some(x) => x,
        None => Err(DiagnosticAdded),
    }
}

/// Reads a recorded resolution.
fn read_recorded<K: Key, T: Copy>(table: &OrderedHashMap<K, Maybe<T>>, k: &K) -> (res: Maybe<T>)
    ensures
        res == recorded(lookup(table@, k@)),
{
    match table.get(k) {
        Some(r) => *r,
        None => Err(skip_diagnostic()),
    }
}

impl SemanticFacts {
    /// Whether a type can be copied and dropped; where nothing is recorded, it can.
    pub open spec fn spec_type_info(self, context: ContextView, ty: TypeId) -> TypeInfo {
        match lookup(self.type_infos@, (context, ty)) {
            Some(info) => info,
            None => TypeInfo { copyable: Ok(()), droppable: Ok(()) },
        }
    }
}

impl SemanticGroup {
    // --- Impl definitions ---

    /// The syntax of an impl.
    pub open spec fn spec_impl_ast(self, id: ImplDefId) -> Maybe<ItemImpl> {
        match lookup(self.facts.impl_defs@, id) {
            Some(f) => match f.ast {
                Ok(Some(ast)) => Ok(ast),
                _ => Err(DiagnosticAdded),
            },
            None => Err(DiagnosticAdded),
        }
    }

    /// The facts about an impl definition whose syntax is known.
    pub fn impl_def(&self, id: ImplDefId) -> (res: Maybe<(&ImplDefFacts, &ItemImpl)>)
        ensures
            match res {
                Ok((f, ast)) => lookup(self.facts.impl_defs@, id) == Some(*f)
                    && self.spec_impl_ast(id) == Ok::<_, DiagnosticAdded>(*ast),
                Err(_) => self.spec_impl_ast(id) is Err,
            },
    {
        match self.facts.impl_defs.get(&id) {
            Some(f) => match &f.ast {
                Ok(Some(ast)) => Ok((f, ast)),
                _ => Err(skip_diagnostic()),
            },
            None => Err(skip_diagnostic()),
        }
    }

    /// The text of a name.
    pub open spec fn spec_text(self, name: SmolStrId) -> Seq<char> {
        match lookup(self.facts.names@, name) {
            Some(text) => text@,
            None => Seq::empty(),
        }
    }

    pub fn text(&self, name: SmolStrId) -> (res: String)
        ensures
            res@ == self.spec_text(name),
    {
        match self.facts.names.get(&name) {
            Some(text) => text.clone(),
            None => String::new(),
        }
    }

    pub open spec fn spec_impl_def_name(self, id: ImplDefId) -> Seq<char> {
        match lookup(self.facts.impl_defs@, id) {
            Some(f) => f.name@,
            None => Seq::empty(),
        }
    }

    pub fn impl_def_name(&self, id: ImplDefId) -> (res: String)
        ensures
            res@ == self.spec_impl_def_name(id),
    {
        match self.facts.impl_defs.get(&id) {
            Some(f) => f.name.clone(),
            None => String::new(),
        }
    }

    pub open spec fn spec_impl_def_full_path(self, id: ImplDefId) -> Seq<char> {
        match lookup(self.facts.impl_defs@, id) {
            Some(f) => f.full_path@,
            None => Seq::empty(),
        }
    }

    pub fn impl_def_full_path(&self, id: ImplDefId) -> (res: String)
        ensures
            res@ == self.spec_impl_def_full_path(id),
    {
        match self.facts.impl_defs.get(&id) {
            Some(f) => f.full_path.clone(),
            None => String::new(),
        }
    }

    /// A concrete trait as it is printed.
    pub open spec fn spec_trait_text(self, id: ConcreteTraitId) -> Seq<char> {
        match lookup(self.facts.trait_texts@, id) {
            Some(text) => text@,
            None => Seq::empty(),
        }
    }

    pub fn trait_text(&self, id: ConcreteTraitId) -> (res: String)
        ensures
            res@ == self.spec_trait_text(id),
    {
        match self.facts.trait_texts.get(&id) {
            Some(text) => text.clone(),
            None => String::new(),
        }
    }

    // --- Modules ---

    /// The crate that a module belongs to, as far as it is recorded.
    pub open spec fn spec_owning_crate(self, module_id: ModuleId) -> Option<CrateId> {
        match module_id {
            ModuleId::CrateRoot(crate_id) => Some(crate_id),
            ModuleId::Submodule(submodule_id) => lookup(
                self.facts.submodule_crates@,
                submodule_id,
            ),
        }
    }

    pub fn owning_crate(&self, module_id: ModuleId) -> (res: Option<CrateId>)
        ensures
            res == self.spec_owning_crate(module_id),
    {
        match module_id {
            ModuleId::CrateRoot(crate_id) => Some(crate_id),
            ModuleId::Submodule(submodule_id) => match self.facts.submodule_crates.get(
                &submodule_id,
            ) {
                Some(c) => Some(*c),
                None => None,
            },
        }
    }

    pub open spec fn spec_use_resolved_item(self, id: UseId) -> Maybe<ResolvedGenericItem> {
        recorded(lookup(self.facts.uses@, id))
    }

    pub fn use_resolved_item(&self, id: UseId) -> (res: Maybe<ResolvedGenericItem>)
        ensures
            res == self.spec_use_resolved_item(id),
    {
        read_recorded(&self.facts.uses, &id)
    }

    // --- Generic parameters ---

    pub open spec fn spec_generic_param(self, id: GenericParamId) -> Maybe<GenericParam> {
        match lookup(self.facts.generic_params@, id) {
            Some(f) => f.semantic,
            None => Err(DiagnosticAdded),
        }
    }

    pub fn generic_param_semantic(&self, id: GenericParamId) -> (res: Maybe<GenericParam>)
        requires
            self.wf(),
        ensures
            res == self.spec_generic_param(id),
            res matches Ok(param) ==> param.spec_kind() == id.kind && self.sizes().has_param(param),
    {
        proof {
            reveal(crate::db::SemanticFacts::valid);
        }
        match self.facts.generic_params.get(&id) {
            Some(f) => f.semantic,
            None => Err(skip_diagnostic()),
        }
    }

    /// The concrete trait of an impl parameter.
    pub open spec fn spec_param_trait(self, id: GenericParamId) -> Maybe<ConcreteTraitId> {
        match self.spec_generic_param(id) {
            Ok(GenericParam::Impl(p)) => p.concrete_trait,
            _ => Err(DiagnosticAdded),
        }
    }

    pub fn param_trait(&self, id: GenericParamId) -> (res: Maybe<ConcreteTraitId>)
        requires
            self.wf(),
        ensures
            res == self.spec_param_trait(id),
            self.sizes().has_maybe_trait(res),
    {
        match self.generic_param_semantic(id) {
            Ok(GenericParam::Impl(p)) => p.concrete_trait,
            _ => Err(skip_diagnostic()),
        }
    }

    // --- Traits ---

    pub open spec fn spec_trait_function_by_name(
        self,
        trait_id: TraitId,
        name: SmolStrId,
    ) -> Maybe<Option<TraitFunctionId>> {
        match lookup(self.facts.traits@, trait_id) {
            Some(f) => match f.functions {
                Ok(items) => Ok(lookup(items@, name)),
                Err(e) => Err(e),
            },
            None => Err(DiagnosticAdded),
        }
    }

    pub fn trait_function_by_name(&self, trait_id: TraitId, name: SmolStrId) -> (res: Maybe<
        Option<TraitFunctionId>,
    >)
        ensures
            res == self.spec_trait_function_by_name(trait_id, name),
    {
        match self.facts.traits.get(&trait_id) {
            Some(f) => match &f.functions {
                Ok(items) => match items.get(&name) {
                    Some(x) => Ok(Some(*x)),
                    None => Ok(None),
                },
                Err(e) => Err(*e),
            },
            None => Err(skip_diagnostic()),
        }
    }

    pub open spec fn spec_trait_type_by_name(
        self,
        trait_id: TraitId,
        name: SmolStrId,
    ) -> Maybe<Option<TraitTypeId>> {
        match lookup(self.facts.traits@, trait_id) {
            Some(f) => match f.types {
                Ok(items) => Ok(lookup(items@, name)),
                Err(e) => Err(e),
            },
            None => Err(DiagnosticAdded),
        }
    }

    pub fn trait_type_by_name(&self, trait_id: TraitId, name: SmolStrId) -> (res: Maybe<
        Option<TraitTypeId>,
    >)
        ensures
            res == self.spec_trait_type_by_name(trait_id, name),
    {
        match self.facts.traits.get(&trait_id) {
            Some(f) => match &f.types {
                Ok(items) => match items.get(&name) {
                    Some(x) => Ok(Some(*x)),
                    None => Ok(None),
                },
                Err(e) => Err(*e),
            },
            None => Err(skip_diagnostic()),
        }
    }

    pub open spec fn spec_trait_constant_by_name(
        self,
        trait_id: TraitId,
        name: SmolStrId,
    ) -> Maybe<Option<TraitConstantId>> {
        match lookup(self.facts.traits@, trait_id) {
            Some(f) => match f.constants {
                Ok(items) => Ok(lookup(items@, name)),
                Err(e) => Err(e),
            },
            None => Err(DiagnosticAdded),
        }
    }

    pub fn trait_constant_by_name(&self, trait_id: TraitId, name: SmolStrId) -> (res: Maybe<
        Option<TraitConstantId>,
    >)
        ensures
            res == self.spec_trait_constant_by_name(trait_id, name),
    {
        match self.facts.traits.get(&trait_id) {
            Some(f) => match &f.constants {
                Ok(items) => match items.get(&name) {
                    Some(x) => Ok(Some(*x)),
                    None => Ok(None),
                },
                Err(e) => Err(*e),
            },
            None => Err(skip_diagnostic()),
        }
    }

    pub open spec fn spec_trait_impls(self, trait_id: TraitId) -> Maybe<
        Seq<(SmolStrId, TraitImplId)>,
    > {
        match lookup(self.facts.traits@, trait_id) {
            Some(f) => match f.impls {
                Ok(items) => Ok(items@),
                Err(e) => Err(e),
            },
            None => Err(DiagnosticAdded),
        }
    }

    pub fn trait_impls(&self, trait_id: TraitId) -> (res: Maybe<
        &OrderedHashMap<SmolStrId, TraitImplId>,
    >)
        ensures
            match res {
                Ok(items) => self.spec_trait_impls(trait_id) == Ok::<_, DiagnosticAdded>(items@),
                Err(_) => self.spec_trait_impls(trait_id) is Err,
            },
    {
        match self.facts.traits.get(&trait_id) {
            Some(f) => match &f.impls {
                Ok(items) => Ok(items),
                Err(e) => Err(*e),
            },
            None => Err(skip_diagnostic()),
        }
    }

    pub open spec fn spec_trait_impl_by_name(
        self,
        trait_id: TraitId,
        name: SmolStrId,
    ) -> Maybe<Option<TraitImplId>> {
        match self.spec_trait_impls(trait_id) {
            Ok(items) => Ok(lookup(items, name)),
            Err(e) => Err(e),
        }
    }

    pub fn trait_impl_by_name(&self, trait_id: TraitId, name: SmolStrId) -> (res: Maybe<
        Option<TraitImplId>,
    >)
        ensures
            res == self.spec_trait_impl_by_name(trait_id, name),
    {
        match self.trait_impls(trait_id) {
            Ok(items) => match items.get(&name) {
                Some(x) => Ok(Some(*x)),
                None => Ok(None),
            },
            Err(e) => Err(e),
        }
    }

    pub open spec fn spec_trait_required_item_names(self, trait_id: TraitId) -> Maybe<
        Seq<SmolStrId>,
    > {
        match lookup(self.facts.traits@, trait_id) {
            Some(f) => match f.required_item_names {
                Ok(names) => Ok(names@),
                Err(e) => Err(e),
            },
            None => Err(DiagnosticAdded),
        }
    }

    pub fn trait_required_item_names(&self, trait_id: TraitId) -> (res: Maybe<
        &OrderedHashSet<SmolStrId>,
    >)
        ensures
            match res {
                Ok(names) => self.spec_trait_required_item_names(trait_id) == Ok::<
                    _,
                    DiagnosticAdded,
                >(names@),
                Err(_) => self.spec_trait_required_item_names(trait_id) is Err,
            },
    {
        match self.facts.traits.get(&trait_id) {
            Some(f) => match &f.required_item_names {
                Ok(names) => Ok(names),
                Err(e) => Err(*e),
            },
            None => Err(skip_diagnostic()),
        }
    }

    // --- Substitution ---

    pub open spec fn spec_substitute_type(self, s: SubstitutionView, x: TypeId) -> Maybe<TypeId> {
        substituted(self.facts.substituted_types@, s, x)
    }

    pub fn substitute_type(&self, s: &GenericSubstitution, x: TypeId) -> (res: Maybe<TypeId>)
        requires
            self.wf(),
        ensures
            res == self.spec_substitute_type(s@, x),
            self.has_type(x) ==> self.sizes().has_maybe_type(res),
    {
        proof {
            reveal(crate::db::SemanticFacts::valid);
        }
        let key = Substituted { substitution: s.dup(), object: x };
        match self.facts.substituted_types.get(&key) {
            Some(r) => *r,
            None => Ok(x),
        }
    }

    pub open spec fn spec_substitute_trait(
        self,
        s: SubstitutionView,
        x: ConcreteTraitId,
    ) -> Maybe<ConcreteTraitId> {
        substituted(self.facts.substituted_traits@, s, x)
    }

    pub fn substitute_trait(&self, s: &GenericSubstitution, x: ConcreteTraitId) -> (res: Maybe<
        ConcreteTraitId,
    >)
        requires
            self.wf(),
        ensures
            res == self.spec_substitute_trait(s@, x),
            self.has_trait(x) ==> self.sizes().has_maybe_trait(res),
    {
        proof {
            reveal(crate::db::SemanticFacts::valid);
        }
        let key = Substituted { substitution: s.dup(), object: x };
        match self.facts.substituted_traits.get(&key) {
            Some(r) => *r,
            None => Ok(x),
        }
    }

    pub open spec fn spec_substitute_impl(self, s: SubstitutionView, x: ImplId) -> Maybe<ImplId> {
        substituted(self.facts.substituted_impls@, s, x)
    }

    pub fn substitute_impl(&self, s: &GenericSubstitution, x: ImplId) -> (res: Maybe<ImplId>)
        requires
            self.wf(),
        ensures
            res == self.spec_substitute_impl(s@, x),
            self.has_impl(x) ==> self.sizes().has_maybe_impl(res),
    {
        proof {
            reveal(crate::db::SemanticFacts::valid);
        }
        let key = Substituted { substitution: s.dup(), object: x };
        match self.facts.substituted_impls.get(&key) {
            Some(r) => *r,
            None => Ok(x),
        }
    }

    pub open spec fn spec_substitute_value(self, s: SubstitutionView, x: ConstValueId) -> Maybe<
        ConstValueId,
    > {
        substituted(self.facts.substituted_values@, s, x)
    }

    pub fn substitute_value(&self, s: &GenericSubstitution, x: ConstValueId) -> (res: Maybe<
        ConstValueId,
    >)
        requires
            self.wf(),
        ensures
            res == self.spec_substitute_value(s@, x),
    {
        let key = Substituted { substitution: s.dup(), object: x };
        match self.facts.substituted_values.get(&key) {
            Some(r) => *r,
            None => Ok(x),
        }
    }

    pub open spec fn spec_substitute_impl_impl(self, s: SubstitutionView, x: ImplImplId) -> Maybe<
        ImplImplId,
    > {
        substituted(self.facts.substituted_impl_impls@, s, x)
    }

    pub fn substitute_impl_impl(&self, s: &GenericSubstitution, x: ImplImplId) -> (res: Maybe<
        ImplImplId,
    >)
        requires
            self.wf(),
        ensures
            res == self.spec_substitute_impl_impl(s@, x),
            self.has_impl(x.impl_id) ==> (res matches Ok(r) ==> self.has_impl(r.impl_id)),
    {
        proof {
            reveal(crate::db::SemanticFacts::valid);
        }
        let key = Substituted { substitution: s.dup(), object: x };
        match self.facts.substituted_impl_impls.get(&key) {
            Some(r) => *r,
            None => Ok(x),
        }
    }

    pub open spec fn spec_substitute_impl_constant(
        self,
        s: SubstitutionView,
        x: ImplConstantId,
    ) -> Maybe<ImplConstantId> {
        substituted(self.facts.substituted_impl_constants@, s, x)
    }

    pub fn substitute_impl_constant(&self, s: &GenericSubstitution, x: ImplConstantId) -> (res:
        Maybe<ImplConstantId>)
        requires
            self.wf(),
        ensures
            res == self.spec_substitute_impl_constant(s@, x),
            self.has_impl(x.impl_id) ==> (res matches Ok(r) ==> self.has_impl(r.impl_id)),
    {
        proof {
            reveal(crate::db::SemanticFacts::valid);
        }
        let key = Substituted { substitution: s.dup(), object: x };
        match self.facts.substituted_impl_constants.get(&key) {
            Some(r) => *r,
            None => Ok(x),
        }
    }

    pub open spec fn spec_substitute_constraints(
        self,
        s: SubstitutionView,
        x: TypeConstraints,
    ) -> Maybe<TypeConstraints> {
        substituted(self.facts.substituted_constraints@, s, x)
    }

    pub fn substitute_constraints(&self, s: &GenericSubstitution, x: TypeConstraints) -> (res:
        Maybe<TypeConstraints>)
        ensures
            res == self.spec_substitute_constraints(s@, x),
    {
        let key = Substituted { substitution: s.dup(), object: x };
        match self.facts.substituted_constraints.get(&key) {
            Some(r) => *r,
            None => Ok(x),
        }
    }

    // --- Concrete traits ---

    pub open spec fn spec_trait_impl_trait(self, id: ConcreteTraitImplId) -> Maybe<
        ConcreteTraitId,
    > {
        recorded(lookup(self.facts.trait_impl_traits@, id))
    }

    /// The concrete trait of a trait impl.
    pub fn concrete_trait_impl_concrete_trait(&self, id: ConcreteTraitImplId) -> (res: Maybe<
        ConcreteTraitId,
    >)
        requires
            self.wf(),
        ensures
            res == self.spec_trait_impl_trait(id),
            self.sizes().has_maybe_trait(res),
    {
        proof {
            reveal(crate::db::SemanticFacts::valid);
        }
        read_recorded(&self.facts.trait_impl_traits, &id)
    }

    pub open spec fn spec_trait_constant_type(self, id: ConcreteTraitConstantId) -> Maybe<TypeId> {
        recorded(lookup(self.facts.trait_constant_types@, id))
    }

    /// The type of a trait constant.
    pub fn concrete_trait_constant_type(&self, id: ConcreteTraitConstantId) -> (res: Maybe<TypeId>)
        requires
            self.wf(),
        ensures
            res == self.spec_trait_constant_type(id),
            self.sizes().has_maybe_type(res),
    {
        proof {
            reveal(crate::db::SemanticFacts::valid);
        }
        read_recorded(&self.facts.trait_constant_types, &id)
    }

    pub open spec fn spec_value_type(self, id: ConstValueId) -> Maybe<TypeId> {
        recorded(lookup(self.facts.value_types@, id))
    }

    /// The type of a constant value.
    pub fn value_type(&self, id: ConstValueId) -> (res: Maybe<TypeId>)
        requires
            self.wf(),
        ensures
            res == self.spec_value_type(id),
            self.sizes().has_maybe_type(res),
    {
        proof {
            reveal(crate::db::SemanticFacts::valid);
        }
        read_recorded(&self.facts.value_types, &id)
    }

    // --- Inference ---

    /// The impl that inference finds in a lookup context; where nothing is recorded, none.
    pub open spec fn spec_impl_at_context(
        self,
        context: ContextView,
        concrete_trait: ConcreteTraitId,
    ) -> Result<ImplId, InferenceError> {
        match lookup(self.facts.impl_answers@, (context, concrete_trait)) {
            Some(r) => r,
            None => Err(InferenceError::NoImplsFound(concrete_trait)),
        }
    }

    pub fn get_impl_at_context(
        &self,
        lookup_context: ImplLookupContext,
        concrete_trait: ConcreteTraitId,
    ) -> (res: Result<ImplId, InferenceError>)
        requires
            self.wf(),
        ensures
            res == self.spec_impl_at_context(lookup_context@, concrete_trait),
            res matches Ok(imp) ==> self.has_impl(imp),
    {
        proof {
            reveal(crate::db::SemanticFacts::valid);
        }
        let key = ImplQuestion { lookup_context, concrete_trait };
        match self.facts.impl_answers.get(&key) {
            Some(r) => *r,
            None => Err(InferenceError::NoImplsFound(concrete_trait)),
        }
    }

    pub fn type_info(&self, lookup_context: &ImplLookupContext, ty: TypeId) -> (res: TypeInfo)
        ensures
            res == self.facts.spec_type_info(lookup_context@, ty),
    {
        let key = TypeQuestion { lookup_context: lookup_context.dup(), ty };
        match self.facts.type_infos.get(&key) {
            Some(info) => *info,
            None => TypeInfo { copyable: Ok(()), droppable: Ok(()) },
        }
    }

    /// Whether two traits are equal, or can be made equal.
    pub open spec fn spec_conform(self, actual: ConcreteTraitId, expected: ConcreteTraitId) -> bool {
        actual == expected || self.facts.conforming_traits@.contains(TraitPair { actual, expected })
    }

    pub fn conform_traits(&self, actual: ConcreteTraitId, expected: ConcreteTraitId) -> (res: bool)
        ensures
            res == self.spec_conform(actual, expected),
    {
        actual == expected || self.facts.conforming_traits.contains(&TraitPair { actual, expected })
    }

    /// The head of a generic argument, where it has one.
    pub open spec fn spec_head(self, arg: GenericArgumentId) -> Option<GenericArgumentHead> {
        lookup(self.facts.heads@, arg)
    }

    pub fn generic_arg_head(&self, arg: GenericArgumentId) -> (res: Option<GenericArgumentHead>)
        ensures
            res == self.spec_head(arg),
    {
        match self.facts.heads.get(&arg) {
            Some(h) => Some(*h),
            None => None,
        }
    }

    // --- Functions ---

    /// The signature of a trait function.
    pub open spec fn spec_trait_function_signature(
        self,
        id: ConcreteTraitGenericFunctionId,
    ) -> Maybe<SignatureView> {
        match lookup(self.facts.trait_function_signatures@, id) {
            Some(Ok(signature)) => Ok(signature@),
            _ => Err(DiagnosticAdded),
        }
    }

    pub fn concrete_trait_function_signature(&self, id: ConcreteTraitGenericFunctionId) -> (res:
        Maybe<&Signature>)
        requires
            self.wf(),
        ensures
            match res {
                Ok(signature) => self.spec_trait_function_signature(id) == Ok::<_, DiagnosticAdded>(
                    signature@,
                ) && self.sizes().has_signature(signature@),
                Err(_) => self.spec_trait_function_signature(id) is Err,
            },
    {
        proof {
            reveal(crate::db::SemanticFacts::valid);
        }
        match self.facts.trait_function_signatures.get(&id) {
            Some(Ok(signature)) => Ok(signature),
            _ => Err(skip_diagnostic()),
        }
    }

    /// The generic parameters of a trait function.
    pub open spec fn spec_trait_function_params(self, id: ConcreteTraitGenericFunctionId) -> Maybe<
        Seq<GenericParam>,
    > {
        match lookup(self.facts.trait_function_params@, id) {
            Some(Ok(params)) => Ok(params@),
            _ => Err(DiagnosticAdded),
        }
    }

    pub fn concrete_trait_function_generic_params(
        &self,
        id: ConcreteTraitGenericFunctionId,
    ) -> (res: Maybe<&Vec<GenericParam>>)
        requires
            self.wf(),
        ensures
            match res {
                Ok(params) => self.spec_trait_function_params(id) == Ok::<_, DiagnosticAdded>(
                    params@,
                ) && self.sizes().has_params(params@),
                Err(_) => self.spec_trait_function_params(id) is Err,
            },
    {
        proof {
            reveal(crate::db::SemanticFacts::valid);
        }
        match self.facts.trait_function_params.get(&id) {
            Some(Ok(params)) => Ok(params),
            _ => Err(skip_diagnostic()),
        }
    }

    /// A resolution with its value substituted; a failed one stays failed.
    pub open spec fn spec_substitute_maybe_trait(
        self,
        s: SubstitutionView,
        x: Maybe<ConcreteTraitId>,
    ) -> Maybe<Maybe<ConcreteTraitId>> {
        match x {
            Ok(id) => match self.spec_substitute_trait(s, id) {
                Ok(r) => Ok(Ok(r)),
                Err(e) => Err(e),
            },
            Err(e) => Ok(Err(e)),
        }
    }

    pub fn substitute_maybe_trait(
        &self,
        s: &GenericSubstitution,
        x: Maybe<ConcreteTraitId>,
    ) -> (res: Maybe<Maybe<ConcreteTraitId>>)
        requires
            self.wf(),
        ensures
            res == self.spec_substitute_maybe_trait(s@, x),
            self.sizes().has_maybe_trait(x) ==> (res matches Ok(r)
                ==> self.sizes().has_maybe_trait(r)),
    {
        match x {
            Ok(id) => match self.substitute_trait(s, id) {
                Ok(r) => Ok(Ok(r)),
                Err(e) => Err(e),
            },
            Err(e) => Ok(Err(e)),
        }
    }

    pub open spec fn spec_substitute_impl_param(
        self,
        s: SubstitutionView,
        p: GenericParamImpl,
    ) -> Maybe<GenericParamImpl> {
        match (
            self.spec_substitute_maybe_trait(s, p.concrete_trait),
            self.spec_substitute_constraints(s, p.type_constraints),
        ) {
            (Ok(concrete_trait), Ok(type_constraints)) => Ok(
                GenericParamImpl { id: p.id, concrete_trait, type_constraints },
            ),
            _ => Err(DiagnosticAdded),
        }
    }

    fn substitute_impl_param(&self, s: &GenericSubstitution, p: GenericParamImpl) -> (res: Maybe<
        GenericParamImpl,
    >)
        requires
            self.wf(),
        ensures
            res == self.spec_substitute_impl_param(s@, p),
            self.sizes().has_maybe_trait(p.concrete_trait) ==> (res matches Ok(r)
                ==> self.sizes().has_maybe_trait(r.concrete_trait)),
    {
        match self.substitute_maybe_trait(s, p.concrete_trait) {
            Ok(concrete_trait) => match self.substitute_constraints(s, p.type_constraints) {
                Ok(type_constraints) => Ok(
                    GenericParamImpl { id: p.id, concrete_trait, type_constraints },
                ),
                Err(e) => Err(e),
            },
            Err(e) => Err(e),
        }
    }

    /// A generic parameter with all that it mentions substituted; its id stays.
    pub open spec fn spec_substitute_param(self, s: SubstitutionView, param: GenericParam) -> Maybe<
        GenericParam,
    > {
        match param {
            GenericParam::Type(p) => Ok(GenericParam::Type(p)),
            GenericParam::Const(p) => match self.spec_substitute_type(s, p.ty) {
                Ok(ty) => Ok(GenericParam::Const(GenericParamConst { id: p.id, ty })),
                Err(e) => Err(e),
            },
            GenericParam::Impl(p) => match self.spec_substitute_impl_param(s, p) {
                Ok(r) => Ok(GenericParam::Impl(r)),
                Err(e) => Err(e),
            },
            GenericParam::NegImpl(p) => match self.spec_substitute_impl_param(s, p) {
                Ok(r) => Ok(GenericParam::NegImpl(r)),
                Err(e) => Err(e),
            },
        }
    }

    fn substitute_param(&self, s: &GenericSubstitution, param: GenericParam) -> (res: Maybe<
        GenericParam,
    >)
        requires
            self.wf(),
        ensures
            res == self.spec_substitute_param(s@, param),
            self.sizes().has_param(param) ==> (res matches Ok(r) ==> self.sizes().has_param(r)),
    {
        match param {
            GenericParam::Type(p) => Ok(GenericParam::Type(p)),
            GenericParam::Const(p) => match self.substitute_type(s, p.ty) {
                Ok(ty) => Ok(GenericParam::Const(GenericParamConst { id: p.id, ty })),
                Err(e) => Err(e),
            },
            GenericParam::Impl(p) => match self.substitute_impl_param(s, p) {
                Ok(r) => Ok(GenericParam::Impl(r)),
                Err(e) => Err(e),
            },
            GenericParam::NegImpl(p) => match self.substitute_impl_param(s, p) {
                Ok(r) => Ok(GenericParam::NegImpl(r)),
                Err(e) => Err(e),
            },
        }
    }

    /// Generic parameters with all that they mention substituted: all of them or none.
    pub open spec fn spec_substitute_params(
        self,
        s: SubstitutionView,
        params: Seq<GenericParam>,
    ) -> Maybe<Seq<GenericParam>> {
        if forall|i: int|
            0 <= i < params.len() ==> self.spec_substitute_param(s, #[trigger] params[i]) is Ok {
            Ok(
                Seq::new(params.len(), |i: int| self.spec_substitute_param(s, params[i])->Ok_0),
            )
        } else {
            Err(DiagnosticAdded)
        }
    }

    pub fn substitute_params(&self, s: &GenericSubstitution, params: &Vec<GenericParam>) -> (res:
        Maybe<Vec<GenericParam>>)
        requires
            self.wf(),
        ensures
            match res {
                Ok(r) => self.spec_substitute_params(s@, params@) == Ok::<_, DiagnosticAdded>(r@)
                    && (self.sizes().has_params(params@) ==> self.sizes().has_params(r@)),
                Err(_) => self.spec_substitute_params(s@, params@) is Err,
            },
    {
        let mut res: Vec<GenericParam> = Vec::new();
        let mut i: usize = 0;
        while i < params.len()
            invariant
                self.wf(),
                i <= params.len(),
                res@.len() == i,
                forall|j: int|
                    0 <= j < i ==> self.spec_substitute_param(s@, #[trigger] params@[j]) == Ok::<
                        _,
                        DiagnosticAdded,
                    >(res@[j]),
                self.sizes().has_params(params@) ==> self.sizes().has_params(res@),
            decreases params.len() - i,
        {
            match self.substitute_param(s, params[i]) {
                Ok(r) => res.push(r),
                Err(e) => {
                    assert(self.spec_substitute_param(s@, params@[i as int]) is Err);
                    return Err(e);
                },
            }
            i += 1;
        }
        assert(res@ =~= self.spec_substitute_params(s@, params@)->Ok_0);
        Ok(res)
    }

    /// Types with all that they mention substituted: all of them or none.
    pub open spec fn spec_substitute_types(self, s: SubstitutionView, types: Seq<TypeId>) -> Maybe<
        Seq<TypeId>,
    > {
        if forall|i: int|
            0 <= i < types.len() ==> self.spec_substitute_type(s, #[trigger] types[i]) is Ok {
            Ok(Seq::new(types.len(), |i: int| self.spec_substitute_type(s, types[i])->Ok_0))
        } else {
            Err(DiagnosticAdded)
        }
    }

    fn substitute_types(&self, s: &GenericSubstitution, types: &Vec<TypeId>) -> (res: Maybe<
        Vec<TypeId>,
    >)
        requires
            self.wf(),
        ensures
            match res {
                Ok(r) => self.spec_substitute_types(s@, types@) == Ok::<_, DiagnosticAdded>(r@) && (
                self.sizes().has_types(types@) ==> self.sizes().has_types(r@)),
                Err(_) => self.spec_substitute_types(s@, types@) is Err,
            },
    {
        let mut res: Vec<TypeId> = Vec::new();
        let mut i: usize = 0;
        while i < types.len()
            invariant
                self.wf(),
                i <= types.len(),
                res@.len() == i,
                forall|j: int|
                    0 <= j < i ==> self.spec_substitute_type(s@, #[trigger] types@[j]) == Ok::<
                        _,
                        DiagnosticAdded,
                    >(res@[j]),
                self.sizes().has_types(types@) ==> self.sizes().has_types(res@),
            decreases types.len() - i,
        {
            match self.substitute_type(s, types[i]) {
                Ok(r) => res.push(r),
                Err(e) => {
                    assert(self.spec_substitute_type(s@, types@[i as int]) is Err);
                    return Err(e);
                },
            }
            i += 1;
        }
        assert(res@ =~= self.spec_substitute_types(s@, types@)->Ok_0);
        Ok(res)
    }

    /// Parameters with their types substituted: all of them or none.
    pub open spec fn spec_substitute_parameters(
        self,
        s: SubstitutionView,
        params: Seq<Parameter>,
    ) -> Maybe<Seq<Parameter>> {
        if forall|i: int|
            0 <= i < params.len() ==> self.spec_substitute_type(s, (#[trigger] params[i]).ty)
                is Ok {
            Ok(
                Seq::new(
                    params.len(),
                    |i: int|
                        Parameter {
                            ty: self.spec_substitute_type(s, params[i].ty)->Ok_0,
                            ..params[i]
                        },
                ),
            )
        } else {
            Err(DiagnosticAdded)
        }
    }

    fn substitute_parameters(&self, s: &GenericSubstitution, params: &Vec<Parameter>) -> (res:
        Maybe<Vec<Parameter>>)
        requires
            self.wf(),
        ensures
            match res {
                Ok(r) => self.spec_substitute_parameters(s@, params@) == Ok::<_, DiagnosticAdded>(
                    r@,
                ) && (self.sizes().has_parameters(params@) ==> self.sizes().has_parameters(r@)),
                Err(_) => self.spec_substitute_parameters(s@, params@) is Err,
            },
    {
        let mut res: Vec<Parameter> = Vec::new();
        let mut i: usize = 0;
        while i < params.len()
            invariant
                self.wf(),
                i <= params.len(),
                res@.len() == i,
                forall|j: int|
                    0 <= j < i ==> self.spec_substitute_type(s@, (#[trigger] params@[j]).ty) is Ok
                        && res@[j] == (Parameter {
                        ty: self.spec_substitute_type(s@, params@[j].ty)->Ok_0,
                        ..params@[j]
                    }),
                self.sizes().has_parameters(params@) ==> self.sizes().has_parameters(res@),
            decreases params.len() - i,
        {
            let param = params[i];
            match self.substitute_type(s, param.ty) {
                Ok(ty) => res.push(Parameter { ty, ..param }),
                Err(e) => {
                    assert(self.spec_substitute_type(s@, params@[i as int].ty) is Err);
                    return Err(e);
                },
            }
            i += 1;
        }
        assert(res@ =~= self.spec_substitute_parameters(s@, params@)->Ok_0);
        Ok(res)
    }

    /// A signature with all its types substituted: all of them or none.
    pub open spec fn spec_substitute_signature(
        self,
        s: SubstitutionView,
        signature: SignatureView,
    ) -> Maybe<SignatureView> {
        match (
            self.spec_substitute_parameters(s, signature.params),
            self.spec_substitute_type(s, signature.return_type),
            self.spec_substitute_types(s, signature.implicits),
        ) {
            (Ok(params), Ok(return_type), Ok(implicits)) => Ok(
                Signature {
                    params,
                    return_type,
                    implicits,
                    panicable: signature.panicable,
                    is_const: signature.is_const,
                },
            ),
            _ => Err(DiagnosticAdded),
        }
    }

    pub fn substitute_signature(&self, s: &GenericSubstitution, signature: &Signature) -> (res:
        Maybe<Signature>)
        requires
            self.wf(),
        ensures
            match res {
                Ok(r) => self.spec_substitute_signature(s@, signature@) == Ok::<_, DiagnosticAdded>(
                    r@,
                ) && (self.sizes().has_signature(signature@) ==> self.sizes().has_signature(r@)),
                Err(_) => self.spec_substitute_signature(s@, signature@) is Err,
            },
    {
        let params = match self.substitute_parameters(s, &signature.params) {
            Ok(params) => params,
            Err(e) => return Err(e),
        };
        let return_type = match self.substitute_type(s, signature.return_type) {
            Ok(return_type) => return_type,
            Err(e) => return Err(e),
        };
        let implicits = match self.substitute_types(s, &signature.implicits) {
            Ok(implicits) => implicits,
            Err(e) => return Err(e),
        };
        Ok(
            Signature {
                params,
                return_type,
                implicits,
                panicable: signature.panicable,
                is_const: signature.is_const,
            },
        )
    }
}

// --- Laws ---

/// What a table makes of a value under a key: the recorded answer, or the value itself.
pub open spec fn made_of<K, X>(table: Seq<(K, Maybe<X>)>, k: K, x: X) -> Maybe<X> {
    if has_key(table, k) {
        lookup(table, k)->0
    } else {
        Ok(x)
    }
}

/// What one substitution and then another make of a value.
pub open spec fn made_by_both<X>(
    table: Seq<((SubstitutionView, X), Maybe<X>)>,
    first: SubstitutionView,
    second: SubstitutionView,
    x: X,
) -> Maybe<X> {
    match made_of(table, (first, x), x) {
        Ok(y) => made_of(table, (second, y), y),
        Err(e) => Err(e),
    }
}

/// A signature is substituted type by type: each type is what the substitution is recorded to make
/// of it, and all else stays. There is no answer exactly where one of the types has none.
pub proof fn law_signatures_are_substituted_type_by_type(
    db: SemanticGroup,
    s: SubstitutionView,
    signature: SignatureView,
)
    ensures
        ({
            let made = |ty: TypeId| made_of(db.facts.substituted_types@, (s, ty), ty);
            match db.spec_substitute_signature(s, signature) {
                Ok(r) => {
                    &&& made(signature.return_type) == Ok::<_, DiagnosticAdded>(r.return_type)
                    &&& r.params.len() == signature.params.len()
                    &&& forall|i: int|
                        0 <= i < signature.params.len() ==> made(
                            (#[trigger] signature.params[i]).ty,
                        ) == Ok::<_, DiagnosticAdded>(r.params[i].ty) && r.params[i].name
                            == signature.params[i].name && r.params[i].mutability
                            == signature.params[i].mutability
                    &&& r.implicits.len() == signature.implicits.len()
                    &&& forall|i: int|
                        0 <= i < signature.implicits.len() ==> made(
                            #[trigger] signature.implicits[i],
                        ) == Ok::<_, DiagnosticAdded>(r.implicits[i])
                    &&& r.panicable == signature.panicable
                    &&& r.is_const == signature.is_const
                },
                Err(_) => {
                    ||| made(signature.return_type) is Err
                    ||| exists|i: int|
                        0 <= i < signature.params.len() && made(
                            (#[trigger] signature.params[i]).ty,
                        ) is Err
                    ||| exists|i: int|
                        0 <= i < signature.implicits.len() && made(
                            #[trigger] signature.implicits[i],
                        ) is Err
                },
            }
        }),
{
    let made = |ty: TypeId| made_of(db.facts.substituted_types@, (s, ty), ty);
    assert forall|ty: TypeId| #[trigger] db.spec_substitute_type(s, ty) == made(ty) by {}
    match db.spec_substitute_signature(s, signature) {
        Ok(r) => {
            assert forall|i: int| 0 <= i < signature.params.len() implies made(
                (#[trigger] signature.params[i]).ty,
            ) == Ok::<_, DiagnosticAdded>(r.params[i].ty) by {
                assert(db.spec_substitute_type(s, signature.params[i].ty) is Ok);
            }
            assert forall|i: int| 0 <= i < signature.implicits.len() implies made(
                #[trigger] signature.implicits[i],
            ) == Ok::<_, DiagnosticAdded>(r.implicits[i]) by {
                assert(db.spec_substitute_type(s, signature.implicits[i]) is Ok);
            }
        },
        Err(_) => {
            if db.spec_substitute_parameters(s, signature.params) is Err {
                let i = choose|i: int|
                    0 <= i < signature.params.len() && !(db.spec_substitute_type(
                        s,
                        (#[trigger] signature.params[i]).ty,
                    ) is Ok);
                assert(made(signature.params[i].ty) is Err);
            } else if db.spec_substitute_types(s, signature.implicits) is Err {
                let i = choose|i: int|
                    0 <= i < signature.implicits.len() && !(db.spec_substitute_type(
                        s,
                        #[trigger] signature.implicits[i],
                    ) is Ok);
                assert(made(signature.implicits[i]) is Err);
            }
        },
    }
}

/// Whether a generic parameter is what a substitution makes of another: it keeps its name, and the
/// type of a constant and the trait and the constraints of an impl are what they are recorded to
/// become.
pub open spec fn is_made_of_param(
    db: SemanticGroup,
    s: SubstitutionView,
    before: GenericParam,
    after: GenericParam,
) -> bool {
    let bound = |p: GenericParamImpl, q: GenericParamImpl|
        p.id == q.id && match p.concrete_trait {
            Ok(t) => q.concrete_trait is Ok && made_of(db.facts.substituted_traits@, (s, t), t)
                == q.concrete_trait,
            Err(_) => q.concrete_trait is Err,
        } && made_of(
            db.facts.substituted_constraints@,
            (s, p.type_constraints),
            p.type_constraints,
        ) == Ok::<_, DiagnosticAdded>(q.type_constraints);
    match (before, after) {
        (GenericParam::Type(p), GenericParam::Type(q)) => p == q,
        (GenericParam::Const(p), GenericParam::Const(q)) => p.id == q.id && made_of(
            db.facts.substituted_types@,
            (s, p.ty),
            p.ty,
        ) == Ok::<_, DiagnosticAdded>(q.ty),
        (GenericParam::Impl(p), GenericParam::Impl(q)) => bound(p, q),
        (GenericParam::NegImpl(p), GenericParam::NegImpl(q)) => bound(p, q),
        _ => false,
    }
}

/// Generic parameters are substituted one by one.
pub proof fn law_parameters_are_substituted_one_by_one(
    db: SemanticGroup,
    s: SubstitutionView,
    params: Seq<GenericParam>,
)
    ensures
        db.spec_substitute_params(s, params) matches Ok(made) ==> made.len() == params.len()
            && forall|i: int|
            0 <= i < params.len() ==> is_made_of_param(db, s, #[trigger] params[i], made[i]),
{
    if let Ok(made) = db.spec_substitute_params(s, params) {
        assert forall|i: int| 0 <= i < params.len() implies is_made_of_param(
            db,
            s,
            #[trigger] params[i],
            made[i],
        ) by {
            assert(db.spec_substitute_param(s, params[i]) is Ok);
        }
    }
}

} // verus!
