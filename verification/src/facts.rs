//! The facts that the analysis starts from.
//!
//! Parsing, name resolution and inference are other stages of the compiler. What they find out is
//! recorded here as plain values, by the item or the value that it is about. Of an item that is
//! not recorded nothing can be resolved.

use vstd::prelude::*;

use crate::collections::{copy_ids, lookup, same_ids, Id, Key, OrderedHashMap, OrderedHashSet};
use crate::context::{ContextView, ImplLookupContext};
use crate::diagnostics::{InferenceError, Maybe, OutsideDiagnostic};
use crate::ids::{
    Attribute, ConcreteTraitId, ConstValueId, CrateId, GenericParamId, ImplAliasId,
    ImplConstantDefId, ImplDefId, ImplId, ImplImplDefId, ImplTypeDefId, ModuleId, SmolStrId,
    SyntaxStablePtrId, TraitConstantId, TraitFunctionId, TraitId, TraitImplId, TraitTypeId,
    TypeConstraints, TypeId, UseId,
};
use crate::model::{GenericArgumentId, GenericParam, Mutability};
use crate::syntax::ItemImpl;

verus! {

/// How many values of each sort are interned.
#[verifier::ext_equal]
pub struct Sizes {
    pub types: nat,
    pub const_values: nat,
    pub concrete_traits: nat,
    pub concrete_impls: nat,
    pub impls: nat,
    pub generated_impls: nat,
    pub uninferred_generated_impls: nat,
}

impl Sizes {
    /// Whether no sort has fewer values here than there.
    pub open spec fn at_least(self, other: Sizes) -> bool {
        &&& self.types >= other.types
        &&& self.const_values >= other.const_values
        &&& self.concrete_traits >= other.concrete_traits
        &&& self.concrete_impls >= other.concrete_impls
        &&& self.impls >= other.impls
        &&& self.generated_impls >= other.generated_impls
        &&& self.uninferred_generated_impls >= other.uninferred_generated_impls
    }

    pub open spec fn has_type(self, ty: TypeId) -> bool {
        ty.0 < self.types
    }

    pub open spec fn has_trait(self, concrete_trait: ConcreteTraitId) -> bool {
        concrete_trait.0 < self.concrete_traits
    }

    pub open spec fn has_impl(self, imp: ImplId) -> bool {
        imp.0 < self.impls
    }

    pub open spec fn has_arg(self, arg: GenericArgumentId) -> bool {
        match arg {
            GenericArgumentId::Type(ty) => self.has_type(ty),
            GenericArgumentId::Value(value) => value.0 < self.const_values,
            GenericArgumentId::Impl(imp) => self.has_impl(imp),
            GenericArgumentId::NegImpl => true,
        }
    }

    pub open spec fn has_args(self, args: Seq<GenericArgumentId>) -> bool {
        forall|i: int| 0 <= i < args.len() ==> self.has_arg(#[trigger] args[i])
    }

    pub open spec fn has_types(self, types: Seq<TypeId>) -> bool {
        forall|i: int| 0 <= i < types.len() ==> self.has_type(#[trigger] types[i])
    }

    pub open spec fn has_maybe_trait(self, concrete_trait: Maybe<ConcreteTraitId>) -> bool {
        concrete_trait matches Ok(id) ==> self.has_trait(id)
    }

    pub open spec fn has_maybe_type(self, ty: Maybe<TypeId>) -> bool {
        ty matches Ok(id) ==> self.has_type(id)
    }

    pub open spec fn has_maybe_impl(self, imp: Maybe<ImplId>) -> bool {
        imp matches Ok(id) ==> self.has_impl(id)
    }

    pub open spec fn has_param(self, param: GenericParam) -> bool {
        match param {
            GenericParam::Type(_) => true,
            GenericParam::Const(p) => self.has_type(p.ty),
            GenericParam::Impl(p) => self.has_maybe_trait(p.concrete_trait),
            GenericParam::NegImpl(p) => self.has_maybe_trait(p.concrete_trait),
        }
    }

    pub open spec fn has_params(self, params: Seq<GenericParam>) -> bool {
        forall|i: int| 0 <= i < params.len() ==> self.has_param(#[trigger] params[i])
    }
}

/// The trait, or impl, in whose items `Self` is resolved.
#[derive(Clone, Copy, PartialEq, Eq, Structural, Debug)]
pub enum TraitOrImplContext {
    Neither,
    Trait(TraitId),
    Impl(ImplDefId),
}

impl View for TraitOrImplContext {
    type V = TraitOrImplContext;

    open spec fn view(&self) -> TraitOrImplContext {
        *self
    }
}

impl Key for TraitOrImplContext {
    fn same(&self, other: &Self) -> (res: bool) {
        *self == *other
    }

    fn dup(&self) -> (res: Self) {
        *self
    }
}

impl Id for TraitOrImplContext {
    fn equals(self, other: Self) -> (res: bool) {
        self == other
    }
}


/// The number of a record of name resolution.
#[derive(Clone, Copy, PartialEq, Eq, Structural, Debug)]
pub struct ResolverId(pub u64);

impl View for ResolverId {
    type V = ResolverId;

    open spec fn view(&self) -> ResolverId {
        *self
    }
}

impl Key for ResolverId {
    fn same(&self, other: &Self) -> (res: bool) {
        *self == *other
    }

    fn dup(&self) -> (res: Self) {
        *self
    }
}

impl Id for ResolverId {
    fn equals(self, other: Self) -> (res: bool) {
        self == other
    }
}


/// What name resolution keeps of an item.
#[derive(Clone, Copy, PartialEq, Eq, Structural, Debug)]
pub struct ResolverData {
    pub id: ResolverId,
    pub trait_or_impl_ctx: TraitOrImplContext,
}

impl View for ResolverData {
    type V = ResolverData;

    open spec fn view(&self) -> ResolverData {
        *self
    }
}

impl Key for ResolverData {
    fn same(&self, other: &Self) -> (res: bool) {
        *self == *other
    }

    fn dup(&self) -> (res: Self) {
        *self
    }
}

impl Id for ResolverData {
    fn equals(self, other: Self) -> (res: bool) {
        self == other
    }
}


/// What inference settled on. A value that is not listed stands for itself.
pub struct Inference {
    pub types: OrderedHashMap<TypeId, TypeId>,
    pub concrete_traits: OrderedHashMap<ConcreteTraitId, ConcreteTraitId>,
    pub type_constraints: OrderedHashMap<TypeConstraints, TypeConstraints>,
}

/// The value recorded for `x`, or `x` itself.
pub open spec fn rewritten<T>(table: Seq<(T, T)>, x: T) -> T {
    match lookup(table, x) {
        Some(y) => y,
        None => x,
    }
}

impl Inference {
    pub open spec fn valid(self, n: Sizes) -> bool {
        &&& forall|t: TypeId|
            (#[trigger] lookup(self.types@, t)) matches Some(r) ==> n.has_type(r)
        &&& forall|t: ConcreteTraitId|
            (#[trigger] lookup(self.concrete_traits@, t)) matches Some(r) ==> n.has_trait(r)
    }

    pub open spec fn spec_rewrite_type(self, ty: TypeId) -> TypeId {
        rewritten(self.types@, ty)
    }

    pub open spec fn spec_rewrite_trait(self, id: ConcreteTraitId) -> ConcreteTraitId {
        rewritten(self.concrete_traits@, id)
    }

    pub open spec fn spec_rewrite_maybe_trait(
        self,
        id: Maybe<ConcreteTraitId>,
    ) -> Maybe<ConcreteTraitId> {
        match id {
            Ok(t) => Ok(self.spec_rewrite_trait(t)),
            Err(e) => Err(e),
        }
    }

    pub open spec fn spec_rewrite_param(self, param: GenericParam) -> GenericParam {
        match param {
            GenericParam::Type(p) => GenericParam::Type(p),
            GenericParam::Const(p) => GenericParam::Const(
                crate::model::GenericParamConst { id: p.id, ty: self.spec_rewrite_type(p.ty) },
            ),
            GenericParam::Impl(p) => GenericParam::Impl(self.spec_rewrite_impl_param(p)),
            GenericParam::NegImpl(p) => GenericParam::NegImpl(self.spec_rewrite_impl_param(p)),
        }
    }

    pub open spec fn spec_rewrite_impl_param(
        self,
        p: crate::model::GenericParamImpl,
    ) -> crate::model::GenericParamImpl {
        crate::model::GenericParamImpl {
            id: p.id,
            concrete_trait: self.spec_rewrite_maybe_trait(p.concrete_trait),
            type_constraints: rewritten(self.type_constraints@, p.type_constraints),
        }
    }

    pub open spec fn spec_rewrite_params(self, params: Seq<GenericParam>) -> Seq<GenericParam> {
        Seq::new(params.len(), |i: int| self.spec_rewrite_param(params[i]))
    }

    pub fn rewrite_type(&self, ty: TypeId) -> (res: TypeId)
        ensures
            res == self.spec_rewrite_type(ty),
    {
        match self.types.get(&ty) {
            Some(r) => *r,
            None => ty,
        }
    }

    pub fn rewrite_trait(&self, id: ConcreteTraitId) -> (res: ConcreteTraitId)
        ensures
            res == self.spec_rewrite_trait(id),
    {
        match self.concrete_traits.get(&id) {
            Some(r) => *r,
            None => id,
        }
    }

    pub fn rewrite_maybe_trait(&self, id: Maybe<ConcreteTraitId>) -> (res: Maybe<ConcreteTraitId>)
        ensures
            res == self.spec_rewrite_maybe_trait(id),
    {
        match id {
            Ok(t) => Ok(self.rewrite_trait(t)),
            Err(e) => Err(e),
        }
    }

    fn rewrite_impl_param(
        &self,
        p: crate::model::GenericParamImpl,
    ) -> (res: crate::model::GenericParamImpl)
        ensures
            res == self.spec_rewrite_impl_param(p),
    {
        let type_constraints = match self.type_constraints.get(&p.type_constraints) {
            Some(r) => *r,
            None => p.type_constraints,
        };
        crate::model::GenericParamImpl {
            id: p.id,
            concrete_trait: self.rewrite_maybe_trait(p.concrete_trait),
            type_constraints,
        }
    }

    pub fn rewrite_params(&self, params: &Vec<GenericParam>) -> (res: Vec<GenericParam>)
        ensures
            res@ == self.spec_rewrite_params(params@),
    {
        let mut res: Vec<GenericParam> = Vec::new();
        let mut i: usize = 0;
        while i < params.len()
            invariant
                i <= params.len(),
                res@ =~= self.spec_rewrite_params(params@).take(i as int),
            decreases params.len() - i,
        {
            let param = match params[i] {
                GenericParam::Type(p) => GenericParam::Type(p),
                GenericParam::Const(p) => GenericParam::Const(
                    crate::model::GenericParamConst { id: p.id, ty: self.rewrite_type(p.ty) },
                ),
                GenericParam::Impl(p) => GenericParam::Impl(self.rewrite_impl_param(p)),
                GenericParam::NegImpl(p) => GenericParam::NegImpl(self.rewrite_impl_param(p)),
            };
            res.push(param);
            i += 1;
        }
        assert(res@ =~= self.spec_rewrite_params(params@));
        res
    }

    /// What inference settles on is interned, where all that it starts from is.
    pub proof fn lemma_rewrite_valid(self, n: Sizes)
        requires
            self.valid(n),
        ensures
            forall|t: TypeId| n.has_type(t) ==> n.has_type(#[trigger] self.spec_rewrite_type(t)),
            forall|t: ConcreteTraitId|
                n.has_trait(t) ==> n.has_trait(#[trigger] self.spec_rewrite_trait(t)),
            forall|p: GenericParam|
                n.has_param(p) ==> n.has_param(#[trigger] self.spec_rewrite_param(p)),
    {
    }
}

/// The generic parameters of an item as they are first resolved.
pub struct GenericsOutcome {
    pub generic_params: Vec<GenericParam>,
    /// What is wrong with the parameters.
    pub diagnostics: Vec<OutsideDiagnostic>,
    /// What inference could not settle.
    pub finalize_diagnostics: Vec<OutsideDiagnostic>,
    pub inference: Inference,
    pub resolver_id: ResolverId,
    /// The parameters, each as an argument for itself.
    pub params_as_args: Vec<GenericArgumentId>,
}

impl GenericsOutcome {
    pub open spec fn valid(self, n: Sizes) -> bool {
        &&& n.has_params(self.generic_params@)
        &&& self.inference.valid(n)
        &&& n.has_args(self.params_as_args@)
    }
}

/// What a path with its generic arguments stands for.
#[derive(Clone, Copy, PartialEq, Eq, Structural, Debug)]
pub enum ResolvedConcreteItem {
    Trait(ConcreteTraitId),
    SelfTrait(ConcreteTraitId),
    /// Any other item, by its number.
    Other(u64),
}

impl View for ResolvedConcreteItem {
    type V = ResolvedConcreteItem;

    open spec fn view(&self) -> ResolvedConcreteItem {
        *self
    }
}

impl Key for ResolvedConcreteItem {
    fn same(&self, other: &Self) -> (res: bool) {
        *self == *other
    }

    fn dup(&self) -> (res: Self) {
        *self
    }
}

impl Id for ResolvedConcreteItem {
    fn equals(self, other: Self) -> (res: bool) {
        self == other
    }
}


/// What a path without generic arguments stands for.
#[derive(Clone, Copy, PartialEq, Eq, Structural, Debug)]
pub enum ResolvedGenericItem {
    Impl(ImplDefId),
    GenericImplAlias(ImplAliasId),
    /// Any other item, by its number.
    Other(u64),
}

impl View for ResolvedGenericItem {
    type V = ResolvedGenericItem;

    open spec fn view(&self) -> ResolvedGenericItem {
        *self
    }
}

impl Key for ResolvedGenericItem {
    fn same(&self, other: &Self) -> (res: bool) {
        *self == *other
    }

    fn dup(&self) -> (res: Self) {
        *self
    }
}

impl Id for ResolvedGenericItem {
    fn equals(self, other: Self) -> (res: bool) {
        self == other
    }
}


/// How the declaration of an impl is resolved.
pub struct DeclarationOutcome {
    /// What the path of the trait stands for.
    pub trait_item: Maybe<ResolvedConcreteItem>,
    /// What is wrong with the path of the trait.
    pub trait_diagnostics: Vec<OutsideDiagnostic>,
    /// What inference could not settle.
    pub finalize_diagnostics: Vec<OutsideDiagnostic>,
    pub inference: Inference,
    pub resolver_id: ResolverId,
}

impl DeclarationOutcome {
    pub open spec fn valid(self, n: Sizes) -> bool {
        &&& self.inference.valid(n)
        &&& match self.trait_item {
            Ok(ResolvedConcreteItem::Trait(id)) => n.has_trait(id),
            Ok(ResolvedConcreteItem::SelfTrait(id)) => n.has_trait(id),
            _ => true,
        }
    }
}

/// The facts about an impl definition.
pub struct ImplDefFacts {
    pub name: String,
    pub full_path: String,
    pub ast: Maybe<Option<ItemImpl>>,
    /// What is wrong with the feature attributes of the impl.
    pub feature_diagnostics: Vec<OutsideDiagnostic>,
    pub generics: GenericsOutcome,
    /// The trait that the path of the impl names.
    pub named_trait: Maybe<TraitId>,
    pub declaration: DeclarationOutcome,
}

impl ImplDefFacts {
    pub open spec fn valid(self, n: Sizes) -> bool {
        &&& self.generics.valid(n)
        &&& self.declaration.valid(n)
    }
}

/// The facts about an impl alias.
pub struct ImplAliasFacts {
    pub full_path: String,
    pub resolved_impl: Maybe<ImplId>,
    pub impl_def: Maybe<ImplDefId>,
}

impl ImplAliasFacts {
    pub open spec fn valid(self, n: Sizes) -> bool {
        n.has_maybe_impl(self.resolved_impl)
    }
}

/// The facts about a trait.
pub struct TraitFacts {
    pub name: String,
    pub functions: Maybe<OrderedHashMap<SmolStrId, TraitFunctionId>>,
    pub types: Maybe<OrderedHashMap<SmolStrId, TraitTypeId>>,
    pub constants: Maybe<OrderedHashMap<SmolStrId, TraitConstantId>>,
    pub impls: Maybe<OrderedHashMap<SmolStrId, TraitImplId>>,
    /// The names of the items that an impl has to provide.
    pub required_item_names: Maybe<OrderedHashSet<SmolStrId>>,
    pub generic_params: Maybe<Vec<GenericParam>>,
}

/// The facts about a generic parameter.
pub struct GenericParamFacts {
    pub semantic: Maybe<GenericParam>,
    /// The trait that an impl parameter names.
    pub named_trait: Maybe<TraitId>,
    pub debug_name: String,
    pub format: String,
}

impl GenericParamFacts {
    /// The recorded parameter is `id` itself, and what it mentions is interned.
    pub open spec fn valid(self, id: GenericParamId, n: Sizes) -> bool {
        self.semantic matches Ok(param) ==> param.spec_id() == id && param.spec_kind() == id.kind
            && n.has_param(param)
    }
}

/// Who may see an item.
#[derive(Clone, Copy, PartialEq, Eq, Structural, Debug)]
pub enum Visibility {
    Public,
    PublicInCrate,
    Private,
}

impl View for Visibility {
    type V = Visibility;

    open spec fn view(&self) -> Visibility {
        *self
    }
}

impl Key for Visibility {
    fn same(&self, other: &Self) -> (res: bool) {
        *self == *other
    }

    fn dup(&self) -> (res: Self) {
        *self
    }
}

impl Id for Visibility {
    fn equals(self, other: Self) -> (res: bool) {
        self == other
    }
}


/// An item of a module.
#[derive(Clone, Copy, PartialEq, Eq, Structural, Debug)]
pub enum ModuleItemId {
    Impl(ImplDefId),
    ImplAlias(ImplAliasId),
    Use(UseId),
    /// Any other item, by its number.
    Other(u64),
}

impl View for ModuleItemId {
    type V = ModuleItemId;

    open spec fn view(&self) -> ModuleItemId {
        *self
    }
}

impl Key for ModuleItemId {
    fn same(&self, other: &Self) -> (res: bool) {
        *self == *other
    }

    fn dup(&self) -> (res: Self) {
        *self
    }
}

impl Id for ModuleItemId {
    fn equals(self, other: Self) -> (res: bool) {
        self == other
    }
}


/// An item of a module and who may see it.
#[derive(Clone, Copy, PartialEq, Eq, Structural, Debug)]
pub struct ModuleItemInfo {
    pub item_id: ModuleItemId,
    pub visibility: Visibility,
}

impl View for ModuleItemInfo {
    type V = ModuleItemInfo;

    open spec fn view(&self) -> ModuleItemInfo {
        *self
    }
}

impl Key for ModuleItemInfo {
    fn same(&self, other: &Self) -> (res: bool) {
        *self == *other
    }

    fn dup(&self) -> (res: Self) {
        *self
    }
}

impl Id for ModuleItemInfo {
    fn equals(self, other: Self) -> (res: bool) {
        self == other
    }
}


/// Whether items of one module with some visibility are seen from another.
#[derive(Clone, Copy, PartialEq, Eq, Structural, Debug)]
pub struct VisibilityQuestion {
    pub visibility: Visibility,
    pub containing_module: ModuleId,
    pub user_module: ModuleId,
}

impl View for VisibilityQuestion {
    type V = VisibilityQuestion;

    open spec fn view(&self) -> VisibilityQuestion {
        *self
    }
}

impl Key for VisibilityQuestion {
    fn same(&self, other: &Self) -> (res: bool) {
        *self == *other
    }

    fn dup(&self) -> (res: Self) {
        *self
    }
}

impl Id for VisibilityQuestion {
    fn equals(self, other: Self) -> (res: bool) {
        self == other
    }
}


/// The facts about a module.
pub struct ModuleFacts {
    pub items: Maybe<Vec<ModuleItemInfo>>,
    /// The modules whose items come in by `use ..::*`: who looks, and where the items stand.
    pub use_star_modules: Vec<(ModuleId, ModuleId)>,
}

/// The traits and functions that the compiler knows by name.
#[derive(Clone, Copy, PartialEq, Eq, Structural, Debug)]
pub struct CoreInfo {
    pub core_crate: CrateId,
    pub type_eq_trt: TraitId,
    pub fn_trt: TraitId,
    pub fn_once_trt: TraitId,
    pub felt252_dict_value_trt: TraitId,
    pub numeric_literal_trt: TraitId,
    pub string_literal_trt: TraitId,
    pub deref_trt: TraitId,
    pub deref_fn: TraitFunctionId,
    pub deref_mut_trt: TraitId,
    pub deref_mut_fn: TraitFunctionId,
    pub copy_trt: TraitId,
    pub drop_trt: TraitId,
    pub destruct_trt: TraitId,
    pub panic_destruct_trt: TraitId,
    /// The name `Output`.
    pub output_name: SmolStrId,
}

impl View for CoreInfo {
    type V = CoreInfo;

    open spec fn view(&self) -> CoreInfo {
        *self
    }
}

impl Key for CoreInfo {
    fn same(&self, other: &Self) -> (res: bool) {
        *self == *other
    }

    fn dup(&self) -> (res: Self) {
        *self
    }
}

impl Id for CoreInfo {
    fn equals(self, other: Self) -> (res: bool) {
        self == other
    }
}


/// Whether a type can be copied and dropped.
#[derive(Clone, Copy, PartialEq, Eq, Debug)]
pub struct TypeInfo {
    pub copyable: Result<(), InferenceError>,
    pub droppable: Result<(), InferenceError>,
}

/// A type and the place that it is written at.
#[derive(Clone, Copy, PartialEq, Eq, Structural, Debug)]
pub struct TypeAtPlace {
    pub ty: TypeId,
    pub stable_ptr: SyntaxStablePtrId,
}

impl View for TypeAtPlace {
    type V = TypeAtPlace;

    open spec fn view(&self) -> TypeAtPlace {
        *self
    }
}

impl Key for TypeAtPlace {
    fn same(&self, other: &Self) -> (res: bool) {
        *self == *other
    }

    fn dup(&self) -> (res: Self) {
        *self
    }
}

/// A question about a type, asked in a lookup context.
pub struct TypeQuestion {
    pub lookup_context: ImplLookupContext,
    pub ty: TypeId,
}

impl View for TypeQuestion {
    type V = (ContextView, TypeId);

    open spec fn view(&self) -> (ContextView, TypeId) {
        (self.lookup_context@, self.ty)
    }
}

impl Key for TypeQuestion {
    fn same(&self, other: &Self) -> (res: bool) {
        self.ty == other.ty && self.lookup_context.same(&other.lookup_context)
    }

    fn dup(&self) -> (res: Self) {
        TypeQuestion { lookup_context: self.lookup_context.dup(), ty: self.ty }
    }
}

/// The question which impl of a trait a lookup context holds.
pub struct ImplQuestion {
    pub lookup_context: ImplLookupContext,
    pub concrete_trait: ConcreteTraitId,
}

impl View for ImplQuestion {
    type V = (ContextView, ConcreteTraitId);

    open spec fn view(&self) -> (ContextView, ConcreteTraitId) {
        (self.lookup_context@, self.concrete_trait)
    }
}

impl Key for ImplQuestion {
    fn same(&self, other: &Self) -> (res: bool) {
        self.concrete_trait == other.concrete_trait && self.lookup_context.same(
            &other.lookup_context,
        )
    }

    fn dup(&self) -> (res: Self) {
        ImplQuestion {
            lookup_context: self.lookup_context.dup(),
            concrete_trait: self.concrete_trait,
        }
    }
}

/// A trait impl of a concrete trait.
#[derive(Clone, Copy, PartialEq, Eq, Structural, Debug)]
pub struct ConcreteTraitImplId {
    pub concrete_trait: ConcreteTraitId,
    pub trait_impl_id: TraitImplId,
}

impl View for ConcreteTraitImplId {
    type V = ConcreteTraitImplId;

    open spec fn view(&self) -> ConcreteTraitImplId {
        *self
    }
}

impl Key for ConcreteTraitImplId {
    fn same(&self, other: &Self) -> (res: bool) {
        *self == *other
    }

    fn dup(&self) -> (res: Self) {
        *self
    }
}

impl Id for ConcreteTraitImplId {
    fn equals(self, other: Self) -> (res: bool) {
        self == other
    }
}


/// A constant of a concrete trait.
#[derive(Clone, Copy, PartialEq, Eq, Structural, Debug)]
pub struct ConcreteTraitConstantId {
    pub concrete_trait: ConcreteTraitId,
    pub trait_constant_id: TraitConstantId,
}

impl View for ConcreteTraitConstantId {
    type V = ConcreteTraitConstantId;

    open spec fn view(&self) -> ConcreteTraitConstantId {
        *self
    }
}

impl Key for ConcreteTraitConstantId {
    fn same(&self, other: &Self) -> (res: bool) {
        *self == *other
    }

    fn dup(&self) -> (res: Self) {
        *self
    }
}

impl Id for ConcreteTraitConstantId {
    fn equals(self, other: Self) -> (res: bool) {
        self == other
    }
}


/// A function of a concrete trait.
#[derive(Clone, Copy, PartialEq, Eq, Structural, Debug)]
pub struct ConcreteTraitGenericFunctionId {
    pub concrete_trait: ConcreteTraitId,
    pub trait_function_id: TraitFunctionId,
}

impl View for ConcreteTraitGenericFunctionId {
    type V = ConcreteTraitGenericFunctionId;

    open spec fn view(&self) -> ConcreteTraitGenericFunctionId {
        *self
    }
}

impl Key for ConcreteTraitGenericFunctionId {
    fn same(&self, other: &Self) -> (res: bool) {
        *self == *other
    }

    fn dup(&self) -> (res: Self) {
        *self
    }
}

impl Id for ConcreteTraitGenericFunctionId {
    fn equals(self, other: Self) -> (res: bool) {
        self == other
    }
}


/// A parameter of a function.
#[derive(Clone, Copy, PartialEq, Eq, Structural, Debug)]
pub struct Parameter {
    pub name: SmolStrId,
    pub ty: TypeId,
    pub mutability: Mutability,
    pub name_ptr: SyntaxStablePtrId,
    pub modifiers_ptr: SyntaxStablePtrId,
    /// The type as it is written.
    pub type_ptr: SyntaxStablePtrId,
}

impl View for Parameter {
    type V = Parameter;

    open spec fn view(&self) -> Parameter {
        *self
    }
}

impl Key for Parameter {
    fn same(&self, other: &Self) -> (res: bool) {
        *self == *other
    }

    fn dup(&self) -> (res: Self) {
        *self
    }
}

impl Id for Parameter {
    fn equals(self, other: Self) -> (res: bool) {
        self == other
    }
}


/// The signature of a function.
#[verifier::ext_equal]
pub struct Signature<P = Vec<Parameter>, T = Vec<TypeId>> {
    pub params: P,
    pub return_type: TypeId,
    pub implicits: T,
    pub panicable: bool,
    pub is_const: bool,
}

pub type SignatureView = Signature<Seq<Parameter>, Seq<TypeId>>;

impl View for Signature {
    type V = SignatureView;

    open spec fn view(&self) -> SignatureView {
        Signature {
            params: self.params@,
            return_type: self.return_type,
            implicits: self.implicits@,
            panicable: self.panicable,
            is_const: self.is_const,
        }
    }
}

impl Key for Signature {
    fn same(&self, other: &Self) -> (res: bool) {
        self.return_type == other.return_type && self.panicable == other.panicable && self.is_const
            == other.is_const && same_ids(&self.params, &other.params) && same_ids(
            &self.implicits,
            &other.implicits,
        )
    }

    fn dup(&self) -> (res: Self) {
        Signature {
            params: copy_ids(&self.params),
            return_type: self.return_type,
            implicits: copy_ids(&self.implicits),
            panicable: self.panicable,
            is_const: self.is_const,
        }
    }
}

impl Inference {
    pub open spec fn spec_rewrite_parameters(self, params: Seq<Parameter>) -> Seq<Parameter> {
        Seq::new(
            params.len(),
            |i: int| Parameter { ty: self.spec_rewrite_type(params[i].ty), ..params[i] },
        )
    }

    pub open spec fn spec_rewrite_types(self, types: Seq<TypeId>) -> Seq<TypeId> {
        Seq::new(types.len(), |i: int| self.spec_rewrite_type(types[i]))
    }

    pub open spec fn spec_rewrite_signature(self, s: SignatureView) -> SignatureView {
        Signature {
            params: self.spec_rewrite_parameters(s.params),
            return_type: self.spec_rewrite_type(s.return_type),
            implicits: self.spec_rewrite_types(s.implicits),
            panicable: s.panicable,
            is_const: s.is_const,
        }
    }

    pub fn rewrite_signature(&self, s: &Signature) -> (res: Signature)
        ensures
            res@ == self.spec_rewrite_signature(s@),
    {
        let mut params: Vec<Parameter> = Vec::new();
        let mut i: usize = 0;
        while i < s.params.len()
            invariant
                i <= s.params.len(),
                params@ =~= self.spec_rewrite_parameters(s.params@).take(i as int),
            decreases s.params.len() - i,
        {
            let param = s.params[i];
            params.push(Parameter { ty: self.rewrite_type(param.ty), ..param });
            i += 1;
        }
        let mut implicits: Vec<TypeId> = Vec::new();
        let mut j: usize = 0;
        while j < s.implicits.len()
            invariant
                j <= s.implicits.len(),
                implicits@ =~= self.spec_rewrite_types(s.implicits@).take(j as int),
            decreases s.implicits.len() - j,
        {
            implicits.push(self.rewrite_type(s.implicits[j]));
            j += 1;
        }
        assert(params@ =~= self.spec_rewrite_parameters(s.params@));
        assert(implicits@ =~= self.spec_rewrite_types(s.implicits@));
        Signature {
            params,
            return_type: self.rewrite_type(s.return_type),
            implicits,
            panicable: s.panicable,
            is_const: s.is_const,
        }
    }
}

impl Sizes {
    pub open spec fn has_parameters(self, params: Seq<Parameter>) -> bool {
        forall|i: int| 0 <= i < params.len() ==> self.has_type((#[trigger] params[i]).ty)
    }

    pub open spec fn has_signature(self, s: SignatureView) -> bool {
        &&& self.has_parameters(s.params)
        &&& self.has_type(s.return_type)
        &&& self.has_types(s.implicits)
    }
}

/// The generic parameters of an alias.
pub struct AliasGenerics {
    pub generic_params: Vec<GenericParam>,
    pub diagnostics: Vec<OutsideDiagnostic>,
    pub resolver_data: ResolverData,
}

/// How a type alias is resolved.
pub struct TypeAliasOutcome {
    pub resolved_type: Maybe<TypeId>,
    pub attributes: Vec<Attribute>,
    pub resolver_data: ResolverData,
    pub diagnostics: Vec<OutsideDiagnostic>,
}

/// The facts about an associated type of an impl.
pub struct TypeItemFacts {
    pub generics: Maybe<AliasGenerics>,
    pub alias: Maybe<TypeAliasOutcome>,
    /// The outcome where the alias depends on itself.
    pub alias_in_cycle: Maybe<TypeAliasOutcome>,
}

impl TypeItemFacts {
    pub open spec fn valid(self, n: Sizes) -> bool {
        &&& self.generics matches Ok(g) ==> n.has_params(g.generic_params@)
        &&& self.alias matches Ok(a) ==> n.has_maybe_type(a.resolved_type)
        &&& self.alias_in_cycle matches Ok(a) ==> n.has_maybe_type(a.resolved_type)
    }
}

/// How a constant is evaluated.
pub struct ConstantOutcome {
    pub const_value: ConstValueId,
    pub resolver_data: ResolverData,
    pub diagnostics: Vec<OutsideDiagnostic>,
}

/// The facts about an associated constant of an impl.
pub struct ConstantItemFacts {
    /// The type that is written.
    pub declared_type: TypeId,
    /// What is wrong with the type that is written.
    pub type_diagnostics: Vec<OutsideDiagnostic>,
    pub inference: Inference,
    pub constant: Maybe<ConstantOutcome>,
    /// The outcome where the constant depends on itself.
    pub constant_in_cycle: Maybe<ConstantOutcome>,
}

impl ConstantItemFacts {
    pub open spec fn valid(self, n: Sizes) -> bool {
        &&& n.has_type(self.declared_type)
        &&& self.inference.valid(n)
        &&& self.constant matches Ok(c) ==> c.const_value.0 < n.const_values
        &&& self.constant_in_cycle matches Ok(c) ==> c.const_value.0 < n.const_values
    }
}

/// How an impl alias is resolved.
pub struct ImplAliasOutcome {
    pub resolved_impl: Maybe<ImplId>,
    pub resolver_data: ResolverData,
    pub diagnostics: Vec<OutsideDiagnostic>,
}

/// The facts about an associated impl of an impl.
pub struct ImplItemFacts {
    pub generics: Maybe<AliasGenerics>,
    pub alias: Maybe<ImplAliasOutcome>,
    /// The outcome where the alias depends on itself.
    pub alias_in_cycle: Maybe<ImplAliasOutcome>,
}

impl ImplItemFacts {
    pub open spec fn valid(self, n: Sizes) -> bool {
        &&& self.generics matches Ok(g) ==> n.has_params(g.generic_params@)
        &&& self.alias matches Ok(a) ==> n.has_maybe_impl(a.resolved_impl)
        &&& self.alias_in_cycle matches Ok(a) ==> n.has_maybe_impl(a.resolved_impl)
    }
}

/// A trait impl that an impl does not name.
#[derive(Clone, Copy, PartialEq, Eq, Structural, Debug)]
pub struct ImplicitImplId {
    pub impl_def_id: ImplDefId,
    pub trait_impl_id: TraitImplId,
}

impl View for ImplicitImplId {
    type V = ImplicitImplId;

    open spec fn view(&self) -> ImplicitImplId {
        *self
    }
}

impl Key for ImplicitImplId {
    fn same(&self, other: &Self) -> (res: bool) {
        *self == *other
    }

    fn dup(&self) -> (res: Self) {
        *self
    }
}

impl Id for ImplicitImplId {
    fn equals(self, other: Self) -> (res: bool) {
        self == other
    }
}


/// The question which impl of a trait an impl finds that does not name one.
#[derive(Clone, Copy, PartialEq, Eq, Structural, Debug)]
pub struct ImplicitImplQuestion {
    pub impl_def_id: ImplDefId,
    pub concrete_trait_id: ConcreteTraitId,
}

impl View for ImplicitImplQuestion {
    type V = ImplicitImplQuestion;

    open spec fn view(&self) -> ImplicitImplQuestion {
        *self
    }
}

impl Key for ImplicitImplQuestion {
    fn same(&self, other: &Self) -> (res: bool) {
        *self == *other
    }

    fn dup(&self) -> (res: Self) {
        *self
    }
}

/// What inference finds for an impl that is not named.
pub enum ImplicitImplOutcome {
    Found(ImplId),
    /// Nothing, and why.
    NotInferred(Vec<OutsideDiagnostic>),
    /// An impl that still holds open variables.
    NotRewritten,
}

/// How calls are inlined.
#[derive(Clone, Copy, PartialEq, Eq, Structural, Debug)]
pub struct InlineConfiguration(pub u64);

impl View for InlineConfiguration {
    type V = InlineConfiguration;

    open spec fn view(&self) -> InlineConfiguration {
        *self
    }
}

impl Key for InlineConfiguration {
    fn same(&self, other: &Self) -> (res: bool) {
        *self == *other
    }

    fn dup(&self) -> (res: Self) {
        *self
    }
}

impl Id for InlineConfiguration {
    fn equals(self, other: Self) -> (res: bool) {
        self == other
    }
}


/// The order of the implicit parameters.
#[derive(Clone, Copy, PartialEq, Eq, Structural, Debug)]
pub struct ImplicitPrecedence(pub u64);

impl View for ImplicitPrecedence {
    type V = ImplicitPrecedence;

    open spec fn view(&self) -> ImplicitPrecedence {
        *self
    }
}

impl Key for ImplicitPrecedence {
    fn same(&self, other: &Self) -> (res: bool) {
        *self == *other
    }

    fn dup(&self) -> (res: Self) {
        *self
    }
}

impl Id for ImplicitPrecedence {
    fn equals(self, other: Self) -> (res: bool) {
        self == other
    }
}


/// The names in scope at the start of a body.
#[derive(Clone, Copy, PartialEq, Eq, Structural, Debug)]
pub struct EnvironmentId(pub u64);

impl View for EnvironmentId {
    type V = EnvironmentId;

    open spec fn view(&self) -> EnvironmentId {
        *self
    }
}

impl Key for EnvironmentId {
    fn same(&self, other: &Self) -> (res: bool) {
        *self == *other
    }

    fn dup(&self) -> (res: Self) {
        *self
    }
}

impl Id for EnvironmentId {
    fn equals(self, other: Self) -> (res: bool) {
        self == other
    }
}


/// An expression of a body.
#[derive(Clone, Copy, PartialEq, Eq, Structural, Debug)]
pub struct ExprId(pub u64);

impl View for ExprId {
    type V = ExprId;

    open spec fn view(&self) -> ExprId {
        *self
    }
}

impl Key for ExprId {
    fn same(&self, other: &Self) -> (res: bool) {
        *self == *other
    }

    fn dup(&self) -> (res: Self) {
        *self
    }
}

impl Id for ExprId {
    fn equals(self, other: Self) -> (res: bool) {
        self == other
    }
}


/// A pattern of a body.
#[derive(Clone, Copy, PartialEq, Eq, Structural, Debug)]
pub struct PatternId(pub u64);

impl View for PatternId {
    type V = PatternId;

    open spec fn view(&self) -> PatternId {
        *self
    }
}

impl Key for PatternId {
    fn same(&self, other: &Self) -> (res: bool) {
        *self == *other
    }

    fn dup(&self) -> (res: Self) {
        *self
    }
}

impl Id for PatternId {
    fn equals(self, other: Self) -> (res: bool) {
        self == other
    }
}


/// A statement in a body.
#[derive(Clone, Copy, PartialEq, Eq, Structural, Debug)]
pub struct StatementId(pub u64);

/// How the body of a function is computed.
pub struct BodyOutcome {
    /// The root expression.
    pub body_expr: ExprId,
    /// The expressions, each with its place.
    pub exprs: Vec<(SyntaxStablePtrId, ExprId)>,
    /// The patterns, each with its place.
    pub patterns: Vec<(SyntaxStablePtrId, PatternId)>,
    /// The statements.
    pub statements: Vec<StatementId>,
    pub diagnostics: Vec<OutsideDiagnostic>,
    pub resolver_id: ResolverId,
}

/// The facts about a function of an impl.
pub struct FunctionFacts {
    pub generics: GenericsOutcome,
    /// What is wrong with the feature attributes of the function.
    pub feature_diagnostics: Vec<OutsideDiagnostic>,
    pub signature: Signature,
    pub signature_diagnostics: Vec<OutsideDiagnostic>,
    pub environment: EnvironmentId,
    pub attributes: Vec<Attribute>,
    pub implicit_precedence: ImplicitPrecedence,
    pub precedence_diagnostics: Vec<OutsideDiagnostic>,
    /// What inference could not settle.
    pub finalize_diagnostics: Vec<OutsideDiagnostic>,
    pub inference: Inference,
    pub inline_config: Maybe<InlineConfiguration>,
    pub inline_diagnostics: Vec<OutsideDiagnostic>,
    /// What is wrong where a function with impl parameters is always inlined.
    pub inline_always_diagnostics: Vec<OutsideDiagnostic>,
    pub resolver_id: ResolverId,
    /// The generic arguments of the function in its own body.
    pub own_args: Maybe<Vec<GenericArgumentId>>,
    pub body: Maybe<BodyOutcome>,
}

impl FunctionFacts {
    pub open spec fn valid(self, n: Sizes) -> bool {
        &&& self.generics.valid(n)
        &&& n.has_signature(self.signature@)
        &&& self.inference.valid(n)
        &&& self.own_args matches Ok(args) ==> n.has_args(args@)
    }
}

/// Two concrete traits.
#[derive(Clone, Copy, PartialEq, Eq, Structural, Debug)]
pub struct TraitPair {
    pub actual: ConcreteTraitId,
    pub expected: ConcreteTraitId,
}

impl View for TraitPair {
    type V = TraitPair;

    open spec fn view(&self) -> TraitPair {
        *self
    }
}

impl Key for TraitPair {
    fn same(&self, other: &Self) -> (res: bool) {
        *self == *other
    }

    fn dup(&self) -> (res: Self) {
        *self
    }
}

impl Id for TraitPair {
    fn equals(self, other: Self) -> (res: bool) {
        self == other
    }
}


/// The computations that depend on themselves.
pub struct Cycles {
    pub declarations: OrderedHashSet<ImplDefId>,
    pub type_items: OrderedHashSet<ImplTypeDefId>,
    pub constant_items: OrderedHashSet<ImplConstantDefId>,
    pub impl_items: OrderedHashSet<ImplImplDefId>,
    pub implicit_impls: OrderedHashSet<ImplicitImplId>,
    pub module_filters: OrderedHashSet<ModuleId>,
    pub impl_filters: OrderedHashSet<ImplId>,
}

impl Cycles {
    /// Whether nothing depends on itself.
    pub open spec fn is_empty(self) -> bool {
        &&& self.declarations@.len() == 0
        &&& self.type_items@.len() == 0
        &&& self.constant_items@.len() == 0
        &&& self.impl_items@.len() == 0
        &&& self.implicit_impls@.len() == 0
        &&& self.module_filters@.len() == 0
        &&& self.impl_filters@.len() == 0
    }

    /// Nothing depends on itself.
    pub fn new() -> (res: Self)
        ensures
            res.is_empty(),
    {
        Cycles {
            declarations: OrderedHashSet::new(),
            type_items: OrderedHashSet::new(),
            constant_items: OrderedHashSet::new(),
            impl_items: OrderedHashSet::new(),
            implicit_impls: OrderedHashSet::new(),
            module_filters: OrderedHashSet::new(),
            impl_filters: OrderedHashSet::new(),
        }
    }
}

} // verus!
