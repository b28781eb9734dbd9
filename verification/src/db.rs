//! The database: the facts that the analysis starts from, and the values that it interns.

use vstd::prelude::*;

use crate::collections::{lookup, OrderedHashMap, OrderedHashSet};
use crate::context::{ContextView, ImplOrModuleById};
use crate::diagnostics::{InferenceError, Maybe, OutsideDiagnostic};
use crate::facts::{
    ConcreteTraitConstantId, ConcreteTraitGenericFunctionId, ConcreteTraitImplId,
    ConstantItemFacts, CoreInfo, Cycles, FunctionFacts, GenericParamFacts, ImplAliasFacts,
    ImplDefFacts, ImplItemFacts, ImplQuestion, ImplicitImplOutcome, ImplicitImplQuestion, ModuleFacts,
    ResolvedGenericItem, ResolverData, ResolverId, Signature, Sizes, TraitFacts, TraitPair,
    TypeAtPlace, TypeInfo, TypeItemFacts, TypeQuestion, VisibilityQuestion,
};
use crate::ids::{
    ConcreteEnumId, ConcreteImplId, ConcreteStructId, ConcreteTraitId, ConstValueId, CrateId,
    FunctionId, GeneratedImplId, GenericArgumentHead, GenericKind, GenericParamId, ImplAliasId,
    ImplConstantDefId, ImplDefId, ImplFunctionId, ImplId, ImplImplDefId, ImplItemId, ImplTypeDefId,
    ModuleId, SmolStrId, SubmoduleId, TraitId, TypeConstraints, TypeId, UninferredGeneratedImplId,
    UseId,
};
use crate::interner::{interned_with, Interner};
use crate::model::{
    ClosureTypeView, ConcreteImplLongId, ConcreteImplView, ConcreteTraitLongId, ConcreteTraitView,
    ConstValue, FunctionLongId, FunctionView, GeneratedImplLongId, GeneratedImplView,
    GenericArgumentId, GenericFunctionId, GenericParam, ImplConstantId, ImplImplId, ImplLongId,
    ImplVarId, TypeLongId, TypeView, UninferredGeneratedImplLongId, UninferredGeneratedImplView,
};
use crate::substitution::{Substituted, SubstitutionView};

verus! {

/// The interned values.
pub struct Interned {
    pub types: Interner<TypeLongId>,
    pub const_values: Interner<ConstValue>,
    pub functions: Interner<FunctionLongId>,
    pub concrete_traits: Interner<ConcreteTraitLongId>,
    pub concrete_impls: Interner<ConcreteImplLongId>,
    pub impls: Interner<ImplLongId>,
    pub generated_impls: Interner<GeneratedImplLongId>,
    pub uninferred_generated_impls: Interner<UninferredGeneratedImplLongId>,
}

/// The interned values, each sort as a sequence.
#[verifier::ext_equal]
pub struct InternedView {
    pub types: Seq<TypeView>,
    pub const_values: Seq<ConstValue>,
    pub functions: Seq<FunctionView>,
    pub concrete_traits: Seq<ConcreteTraitView>,
    pub concrete_impls: Seq<ConcreteImplView>,
    pub impls: Seq<ImplLongId>,
    pub generated_impls: Seq<GeneratedImplView>,
    pub uninferred_generated_impls: Seq<UninferredGeneratedImplView>,
}

impl View for Interned {
    type V = InternedView;

    open spec fn view(&self) -> InternedView {
        InternedView {
            types: self.types@,
            const_values: self.const_values@,
            functions: self.functions@,
            concrete_traits: self.concrete_traits@,
            concrete_impls: self.concrete_impls@,
            impls: self.impls@,
            generated_impls: self.generated_impls@,
            uninferred_generated_impls: self.uninferred_generated_impls@,
        }
    }
}

impl Sizes {
    pub open spec fn has_closure(self, c: ClosureTypeView) -> bool {
        &&& self.has_types(c.param_tys)
        &&& self.has_type(c.ret_ty)
        &&& self.has_types(c.captured_types)
    }

    /// Whether all that a type mentions is interned.
    pub open spec fn has_type_parts(self, t: TypeView) -> bool {
        match t {
            TypeLongId::Tuple(types) => self.has_types(types),
            TypeLongId::Snapshot(ty) => self.has_type(ty),
            TypeLongId::ImplType(id) => self.has_impl(id.impl_id),
            TypeLongId::FixedSizeArray { type_id, size } => self.has_type(type_id),
            TypeLongId::Closure(c) => self.has_closure(c),
            _ => true,
        }
    }

    /// Whether all that a function mentions is interned.
    pub open spec fn has_function_parts(self, f: FunctionView) -> bool {
        &&& self.has_args(f.generic_args)
        &&& f.generic_function matches GenericFunctionId::Impl(g) ==> self.has_impl(g.impl_id)
    }

    /// Whether all that a constant mentions is interned.
    pub open spec fn has_const_parts(self, c: ConstValue) -> bool {
        c matches ConstValue::ImplConstant(id) ==> self.has_impl(id.impl_id)
    }

    /// Whether all that a generated impl mentions is interned.
    pub open spec fn has_generated_parts(self, g: GeneratedImplView) -> bool {
        &&& self.has_trait(g.concrete_trait)
        &&& self.has_params(g.generic_params)
        &&& forall|i: int|
            0 <= i < g.impl_items.len() ==> self.has_type((#[trigger] g.impl_items[i]).1)
    }

    /// Whether all that a generated impl before inference mentions is interned.
    pub open spec fn has_uninferred_parts(self, g: UninferredGeneratedImplView) -> bool {
        &&& self.has_trait(g.concrete_trait)
        &&& self.has_params(g.generic_params)
        &&& forall|i: int|
            0 <= i < g.impl_items.len() ==> self.has_type((#[trigger] g.impl_items[i]).1)
    }
}

impl InternedView {
    pub open spec fn sizes(self) -> Sizes {
        Sizes {
            types: self.types.len(),
            const_values: self.const_values.len(),
            concrete_traits: self.concrete_traits.len(),
            concrete_impls: self.concrete_impls.len(),
            impls: self.impls.len(),
            generated_impls: self.generated_impls.len(),
            uninferred_generated_impls: self.uninferred_generated_impls.len(),
        }
    }

    /// Whether every id of `old` stands for the same value here.
    pub open spec fn extends(self, old: InternedView) -> bool {
        &&& old.types.is_prefix_of(self.types)
        &&& old.const_values.is_prefix_of(self.const_values)
        &&& old.functions.is_prefix_of(self.functions)
        &&& old.concrete_traits.is_prefix_of(self.concrete_traits)
        &&& old.concrete_impls.is_prefix_of(self.concrete_impls)
        &&& old.impls.is_prefix_of(self.impls)
        &&& old.generated_impls.is_prefix_of(self.generated_impls)
        &&& old.uninferred_generated_impls.is_prefix_of(self.uninferred_generated_impls)
    }

    /// Whether an impl that gets the number `i` mentions only what was interned before it.
    pub open spec fn impl_parts(self, i: int, long: ImplLongId) -> bool {
        match long {
            ImplLongId::Concrete(c) => {
                &&& c.0 < self.concrete_impls.len()
                &&& self.args_before(i, self.concrete_impls[c.0 as int].generic_args)
            },
            ImplLongId::GenericParameter(p) => p.kind == GenericKind::Impl,
            ImplLongId::ImplVar(v) => self.sizes().has_trait(v.concrete_trait_id),
            ImplLongId::ImplImpl(id) => id.impl_id.0 < i,
            ImplLongId::SelfImpl(t) => self.sizes().has_trait(t),
            ImplLongId::GeneratedImpl(g) => g.0 < self.generated_impls.len(),
        }
    }

    /// Whether the impls among the arguments have numbers below `i`.
    pub open spec fn args_before(self, i: int, args: Seq<GenericArgumentId>) -> bool {
        forall|k: int|
            0 <= k < args.len() ==> ((#[trigger] args[k]) matches GenericArgumentId::Impl(j)
                ==> j.0 < i)
    }

    /// No value has two ids.
    pub open spec fn distinct(self) -> bool {
        &&& self.types.no_duplicates()
        &&& self.const_values.no_duplicates()
        &&& self.functions.no_duplicates()
        &&& self.concrete_traits.no_duplicates()
        &&& self.concrete_impls.no_duplicates()
        &&& self.impls.no_duplicates()
        &&& self.generated_impls.no_duplicates()
        &&& self.uninferred_generated_impls.no_duplicates()
    }

    /// No value has two ids, every interned value mentions interned values only, and an impl
    /// mentions earlier impls.
    pub open spec fn wf(self) -> bool {
        let n = self.sizes();
        &&& self.distinct()
        &&& forall|i: int| 0 <= i < self.types.len() ==> n.has_type_parts(#[trigger] self.types[i])
        &&& forall|i: int|
            0 <= i < self.const_values.len() ==> n.has_const_parts(#[trigger] self.const_values[i])
        &&& forall|i: int|
            0 <= i < self.functions.len() ==> n.has_function_parts(#[trigger] self.functions[i])
        &&& forall|i: int|
            0 <= i < self.concrete_traits.len() ==> n.has_args(
                (#[trigger] self.concrete_traits[i]).generic_args,
            )
        &&& forall|i: int|
            0 <= i < self.concrete_impls.len() ==> n.has_args(
                (#[trigger] self.concrete_impls[i]).generic_args,
            )
        &&& forall|i: int|
            0 <= i < self.impls.len() ==> self.impl_parts(i, #[trigger] self.impls[i])
        &&& forall|i: int|
            0 <= i < self.generated_impls.len() ==> n.has_generated_parts(
                #[trigger] self.generated_impls[i],
            )
        &&& forall|i: int|
            0 <= i < self.uninferred_generated_impls.len() ==> n.has_uninferred_parts(
                #[trigger] self.uninferred_generated_impls[i],
            )
    }
}

/// What the other stages of the compiler found out.
pub struct SemanticFacts {
    pub core: CoreInfo,
    pub cycles: Cycles,
    /// The text of the names.
    pub names: OrderedHashMap<SmolStrId, String>,
    pub submodule_crates: OrderedHashMap<SubmoduleId, CrateId>,
    pub impl_defs: OrderedHashMap<ImplDefId, ImplDefFacts>,
    pub impl_aliases: OrderedHashMap<ImplAliasId, ImplAliasFacts>,
    pub traits: OrderedHashMap<TraitId, TraitFacts>,
    pub generic_params: OrderedHashMap<GenericParamId, GenericParamFacts>,
    pub modules: OrderedHashMap<ModuleId, ModuleFacts>,
    /// The combinations in which an item is visible.
    pub visible: OrderedHashSet<VisibilityQuestion>,
    pub uses: OrderedHashMap<UseId, Maybe<ResolvedGenericItem>>,
    /// The modules in which types are defined.
    pub type_modules: OrderedHashMap<TypeId, ModuleId>,
    /// The scopes that types add to a lookup of their impls.
    pub type_scopes: OrderedHashMap<TypeId, ImplOrModuleById>,
    /// The types and constants that depend on no generics.
    pub fully_concrete_args: OrderedHashSet<GenericArgumentId>,
    /// The types and constants that depend on no variables.
    pub var_free_args: OrderedHashSet<GenericArgumentId>,
    pub fully_concrete_traits: OrderedHashSet<ConcreteTraitId>,
    pub var_free_traits: OrderedHashSet<ConcreteTraitId>,
    /// The heads of the generic arguments that have one.
    pub heads: OrderedHashMap<GenericArgumentId, GenericArgumentHead>,
    /// The concrete traits as they are printed.
    pub trait_texts: OrderedHashMap<ConcreteTraitId, String>,
    /// The generic arguments of the concrete impls as they are printed behind their paths.
    pub impl_args_texts: OrderedHashMap<ConcreteImplId, String>,
    /// The impl variables as they are printed.
    pub impl_var_texts: OrderedHashMap<ImplVarId, String>,
    pub struct_members: OrderedHashMap<ConcreteStructId, Maybe<Vec<TypeId>>>,
    pub enum_variants: OrderedHashMap<ConcreteEnumId, Maybe<Vec<TypeId>>>,
    /// The types that cannot always be copied and dropped.
    pub type_infos: OrderedHashMap<TypeQuestion, TypeInfo>,
    /// What is wrong with types, where they are written.
    pub type_diagnostics: OrderedHashMap<TypeAtPlace, Vec<OutsideDiagnostic>>,
    /// The impls that inference finds.
    pub impl_answers: OrderedHashMap<ImplQuestion, Result<ImplId, InferenceError>>,
    pub substituted_types: OrderedHashMap<Substituted<TypeId>, Maybe<TypeId>>,
    pub substituted_traits: OrderedHashMap<Substituted<ConcreteTraitId>, Maybe<ConcreteTraitId>>,
    pub substituted_impls: OrderedHashMap<Substituted<ImplId>, Maybe<ImplId>>,
    pub substituted_values: OrderedHashMap<Substituted<ConstValueId>, Maybe<ConstValueId>>,
    pub substituted_impl_impls: OrderedHashMap<Substituted<ImplImplId>, Maybe<ImplImplId>>,
    pub substituted_impl_constants: OrderedHashMap<
        Substituted<ImplConstantId>,
        Maybe<ImplConstantId>,
    >,
    pub substituted_constraints: OrderedHashMap<
        Substituted<TypeConstraints>,
        Maybe<TypeConstraints>,
    >,
    pub trait_impl_traits: OrderedHashMap<ConcreteTraitImplId, Maybe<ConcreteTraitId>>,
    pub trait_constant_types: OrderedHashMap<ConcreteTraitConstantId, Maybe<TypeId>>,
    pub trait_function_signatures: OrderedHashMap<ConcreteTraitGenericFunctionId, Maybe<Signature>>,
    pub trait_function_params: OrderedHashMap<
        ConcreteTraitGenericFunctionId,
        Maybe<Vec<GenericParam>>,
    >,
    pub value_types: OrderedHashMap<ConstValueId, Maybe<TypeId>>,
    /// The pairs of different traits that inference can make equal.
    pub conforming_traits: OrderedHashSet<TraitPair>,
    /// The `use` items that name resolution went through.
    pub used_uses: OrderedHashMap<ResolverId, Vec<UseId>>,
    pub item_resolver_data: OrderedHashMap<ImplItemId, Vec<ResolverData>>,
    pub type_items: OrderedHashMap<ImplTypeDefId, TypeItemFacts>,
    pub constant_items: OrderedHashMap<ImplConstantDefId, ConstantItemFacts>,
    pub impl_items: OrderedHashMap<ImplImplDefId, ImplItemFacts>,
    pub implicit_impls: OrderedHashMap<ImplicitImplQuestion, ImplicitImplOutcome>,
    pub functions: OrderedHashMap<ImplFunctionId, FunctionFacts>,
}

/// The recorded answer for `x`; without one `x` is left as it is.
pub open spec fn substituted<O>(
    table: Seq<((SubstitutionView, O), Maybe<O>)>,
    s: SubstitutionView,
    x: O,
) -> Maybe<O> {
    match lookup(table, (s, x)) {
        Some(r) => r,
        None => Ok(x),
    }
}

impl SemanticFacts {
    /// What is recorded mentions interned values only.
    #[verifier::opaque]
    pub open spec fn valid(self, n: Sizes) -> bool {
        &&& forall|k: ImplDefId|
            (#[trigger] lookup(self.impl_defs@, k)) matches Some(f) ==> f.valid(n)
        &&& forall|k: ImplAliasId|
            (#[trigger] lookup(self.impl_aliases@, k)) matches Some(f) ==> f.valid(n)
        &&& forall|k: TraitId|
            (#[trigger] lookup(self.traits@, k)) matches Some(f) ==> (
            f.generic_params matches Ok(params) ==> n.has_params(params@))
        &&& forall|k: GenericParamId|
            (#[trigger] lookup(self.generic_params@, k)) matches Some(f) ==> f.valid(k, n)
        &&& forall|k: ConcreteStructId|
            (#[trigger] lookup(self.struct_members@, k)) matches Some(Ok(types)) ==> n.has_types(
                types@,
            )
        &&& forall|k: ConcreteEnumId|
            (#[trigger] lookup(self.enum_variants@, k)) matches Some(Ok(types)) ==> n.has_types(
                types@,
            )
        &&& forall|k: (ContextView, ConcreteTraitId)|
            (#[trigger] lookup(self.impl_answers@, k)) matches Some(answer) ==> n.has_trait(k.1)
                && (answer matches Ok(imp) ==> n.has_impl(imp))
        &&& forall|k: (SubstitutionView, TypeId)|
            (#[trigger] lookup(self.substituted_types@, k)) matches Some(Ok(r)) ==> n.has_type(r)
        &&& forall|k: (SubstitutionView, ConcreteTraitId)|
            (#[trigger] lookup(self.substituted_traits@, k)) matches Some(Ok(r)) ==> n.has_trait(r)
        &&& forall|k: (SubstitutionView, ImplId)|
            (#[trigger] lookup(self.substituted_impls@, k)) matches Some(Ok(r)) ==> n.has_impl(r)
        &&& forall|k: (SubstitutionView, ConstValueId)|
            (#[trigger] lookup(self.substituted_values@, k)) matches Some(Ok(r)) ==> r.0
                < n.const_values
        &&& forall|k: (SubstitutionView, ImplImplId)|
            (#[trigger] lookup(self.substituted_impl_impls@, k)) matches Some(Ok(r)) ==> n.has_impl(
                r.impl_id,
            )
        &&& forall|k: (SubstitutionView, ImplConstantId)|
            (#[trigger] lookup(self.substituted_impl_constants@, k)) matches Some(Ok(r))
                ==> n.has_impl(r.impl_id)
        &&& forall|k: ConcreteTraitImplId|
            (#[trigger] lookup(self.trait_impl_traits@, k)) matches Some(Ok(r)) ==> n.has_trait(r)
        &&& forall|k: ConcreteTraitConstantId|
            (#[trigger] lookup(self.trait_constant_types@, k)) matches Some(Ok(r)) ==> n.has_type(r)
        &&& forall|k: ConcreteTraitGenericFunctionId|
            (#[trigger] lookup(self.trait_function_signatures@, k)) matches Some(Ok(r))
                ==> n.has_signature(r@)
        &&& forall|k: ConcreteTraitGenericFunctionId|
            (#[trigger] lookup(self.trait_function_params@, k)) matches Some(Ok(r))
                ==> n.has_params(r@)
        &&& forall|k: ConstValueId|
            (#[trigger] lookup(self.value_types@, k)) matches Some(Ok(r)) ==> n.has_type(r)
        &&& forall|k: ImplTypeDefId|
            (#[trigger] lookup(self.type_items@, k)) matches Some(f) ==> f.valid(n)
        &&& forall|k: ImplConstantDefId|
            (#[trigger] lookup(self.constant_items@, k)) matches Some(f) ==> f.valid(n)
        &&& forall|k: ImplImplDefId|
            (#[trigger] lookup(self.impl_items@, k)) matches Some(f) ==> f.valid(n)
        &&& forall|k: ImplicitImplQuestion|
            (#[trigger] lookup(self.implicit_impls@, k)) matches Some(
                ImplicitImplOutcome::Found(imp),
            ) ==> n.has_impl(imp)
        &&& forall|k: ImplFunctionId|
            (#[trigger] lookup(self.functions@, k)) matches Some(f) ==> f.valid(n)
    }

    /// What is recorded stays interned as more values are.
    pub proof fn lemma_valid_monotone(self, n: Sizes, m: Sizes)
        requires
            self.valid(n),
            m.at_least(n),
        ensures
            self.valid(m),
    {
        reveal(SemanticFacts::valid);
    }
}

impl SemanticFacts {
    /// Whether nothing is recorded but the core library.
    pub open spec fn is_empty(self) -> bool {
        &&& self.cycles.is_empty()
        &&& self.names@.len() == 0
        &&& self.submodule_crates@.len() == 0
        &&& self.impl_defs@.len() == 0
        &&& self.impl_aliases@.len() == 0
        &&& self.traits@.len() == 0
        &&& self.generic_params@.len() == 0
        &&& self.modules@.len() == 0
        &&& self.visible@.len() == 0
        &&& self.uses@.len() == 0
        &&& self.type_modules@.len() == 0
        &&& self.type_scopes@.len() == 0
        &&& self.fully_concrete_args@.len() == 0
        &&& self.var_free_args@.len() == 0
        &&& self.fully_concrete_traits@.len() == 0
        &&& self.var_free_traits@.len() == 0
        &&& self.heads@.len() == 0
        &&& self.trait_texts@.len() == 0
        &&& self.impl_args_texts@.len() == 0
        &&& self.impl_var_texts@.len() == 0
        &&& self.struct_members@.len() == 0
        &&& self.enum_variants@.len() == 0
        &&& self.type_infos@.len() == 0
        &&& self.type_diagnostics@.len() == 0
        &&& self.impl_answers@.len() == 0
        &&& self.substituted_types@.len() == 0
        &&& self.substituted_traits@.len() == 0
        &&& self.substituted_impls@.len() == 0
        &&& self.substituted_values@.len() == 0
        &&& self.substituted_impl_impls@.len() == 0
        &&& self.substituted_impl_constants@.len() == 0
        &&& self.substituted_constraints@.len() == 0
        &&& self.trait_impl_traits@.len() == 0
        &&& self.trait_constant_types@.len() == 0
        &&& self.trait_function_signatures@.len() == 0
        &&& self.trait_function_params@.len() == 0
        &&& self.value_types@.len() == 0
        &&& self.conforming_traits@.len() == 0
        &&& self.used_uses@.len() == 0
        &&& self.item_resolver_data@.len() == 0
        &&& self.type_items@.len() == 0
        &&& self.constant_items@.len() == 0
        &&& self.impl_items@.len() == 0
        &&& self.implicit_impls@.len() == 0
        &&& self.functions@.len() == 0
    }

    /// No facts but the core library.
    pub fn new(core: CoreInfo) -> (res: Self)
        ensures
            res.core == core,
            res.is_empty(),
            forall|n: Sizes| #[trigger] res.valid(n),
    {
        let res = SemanticFacts {
            core: core,
            cycles: Cycles::new(),
            names: OrderedHashMap::new(),
            submodule_crates: OrderedHashMap::new(),
            impl_defs: OrderedHashMap::new(),
            impl_aliases: OrderedHashMap::new(),
            traits: OrderedHashMap::new(),
            generic_params: OrderedHashMap::new(),
            modules: OrderedHashMap::new(),
            visible: OrderedHashSet::new(),
            uses: OrderedHashMap::new(),
            type_modules: OrderedHashMap::new(),
            type_scopes: OrderedHashMap::new(),
            fully_concrete_args: OrderedHashSet::new(),
            var_free_args: OrderedHashSet::new(),
            fully_concrete_traits: OrderedHashSet::new(),
            var_free_traits: OrderedHashSet::new(),
            heads: OrderedHashMap::new(),
            trait_texts: OrderedHashMap::new(),
            impl_args_texts: OrderedHashMap::new(),
            impl_var_texts: OrderedHashMap::new(),
            struct_members: OrderedHashMap::new(),
            enum_variants: OrderedHashMap::new(),
            type_infos: OrderedHashMap::new(),
            type_diagnostics: OrderedHashMap::new(),
            impl_answers: OrderedHashMap::new(),
            substituted_types: OrderedHashMap::new(),
            substituted_traits: OrderedHashMap::new(),
            substituted_impls: OrderedHashMap::new(),
            substituted_values: OrderedHashMap::new(),
            substituted_impl_impls: OrderedHashMap::new(),
            substituted_impl_constants: OrderedHashMap::new(),
            substituted_constraints: OrderedHashMap::new(),
            trait_impl_traits: OrderedHashMap::new(),
            trait_constant_types: OrderedHashMap::new(),
            trait_function_signatures: OrderedHashMap::new(),
            trait_function_params: OrderedHashMap::new(),
            value_types: OrderedHashMap::new(),
            conforming_traits: OrderedHashSet::new(),
            used_uses: OrderedHashMap::new(),
            item_resolver_data: OrderedHashMap::new(),
            type_items: OrderedHashMap::new(),
            constant_items: OrderedHashMap::new(),
            impl_items: OrderedHashMap::new(),
            implicit_impls: OrderedHashMap::new(),
            functions: OrderedHashMap::new(),
        };
        assert forall|n: Sizes| #[trigger] res.valid(n) by {
            reveal(SemanticFacts::valid);
        }
        res
    }
}

impl Interned {
    /// No values.
    pub fn new() -> (res: Self)
        ensures
            res@.wf(),
            res@ == (InternedView {
                types: seq![],
                const_values: seq![],
                functions: seq![],
                concrete_traits: seq![],
                concrete_impls: seq![],
                impls: seq![],
                generated_impls: seq![],
                uninferred_generated_impls: seq![],
            }),
    {
        let res = Interned {
            types: Interner::new(),
            const_values: Interner::new(),
            functions: Interner::new(),
            concrete_traits: Interner::new(),
            concrete_impls: Interner::new(),
            impls: Interner::new(),
            generated_impls: Interner::new(),
            uninferred_generated_impls: Interner::new(),
        };
        res
    }
}

/// The facts and the interned values.
pub struct SemanticGroup {
    pub facts: SemanticFacts,
    pub interned: Interned,
}

impl SemanticGroup {
    /// A database that knows the core library only.
    pub fn new(core: CoreInfo) -> (res: Self)
        ensures
            res.wf(),
            res.facts.core == core,
            res.facts.is_empty(),
            res.interned@ == (InternedView {
                types: seq![],
                const_values: seq![],
                functions: seq![],
                concrete_traits: seq![],
                concrete_impls: seq![],
                impls: seq![],
                generated_impls: seq![],
                uninferred_generated_impls: seq![],
            }),
    {
        SemanticGroup { facts: SemanticFacts::new(core), interned: Interned::new() }
    }

    pub open spec fn sizes(self) -> Sizes {
        self.interned@.sizes()
    }

    /// The interned values, and those that the facts mention, mention interned values only.
    pub open spec fn wf(self) -> bool {
        &&& self.interned@.wf()
        &&& self.facts.valid(self.sizes())
    }

    /// Whether this database is the other with more values interned.
    pub open spec fn grown_from(self, old: SemanticGroup) -> bool {
        &&& self.facts == old.facts
        &&& self.interned@.extends(old.interned@)
    }

    pub open spec fn has_type(self, ty: TypeId) -> bool {
        self.sizes().has_type(ty)
    }

    pub open spec fn has_trait(self, id: ConcreteTraitId) -> bool {
        self.sizes().has_trait(id)
    }

    pub open spec fn has_impl(self, id: ImplId) -> bool {
        self.sizes().has_impl(id)
    }

    pub open spec fn has_concrete_impl(self, id: ConcreteImplId) -> bool {
        id.0 < self.interned@.concrete_impls.len()
    }

    pub open spec fn has_generated(self, id: GeneratedImplId) -> bool {
        id.0 < self.interned@.generated_impls.len()
    }

    pub open spec fn has_uninferred_generated(self, id: UninferredGeneratedImplId) -> bool {
        id.0 < self.interned@.uninferred_generated_impls.len()
    }

    pub open spec fn spec_type_long(self, ty: TypeId) -> TypeView {
        self.interned@.types[ty.0 as int]
    }

    pub open spec fn spec_trait_long(self, id: ConcreteTraitId) -> ConcreteTraitView {
        self.interned@.concrete_traits[id.0 as int]
    }

    pub open spec fn spec_impl_long(self, id: ImplId) -> ImplLongId {
        self.interned@.impls[id.0 as int]
    }

    pub open spec fn spec_concrete_impl_long(self, id: ConcreteImplId) -> ConcreteImplView {
        self.interned@.concrete_impls[id.0 as int]
    }

    pub open spec fn spec_generated_long(self, id: GeneratedImplId) -> GeneratedImplView {
        self.interned@.generated_impls[id.0 as int]
    }

    pub open spec fn spec_uninferred_generated_long(
        self,
        id: UninferredGeneratedImplId,
    ) -> UninferredGeneratedImplView {
        self.interned@.uninferred_generated_impls[id.0 as int]
    }

    pub fn type_long(&self, ty: TypeId) -> (res: &TypeLongId)
        requires
            self.has_type(ty),
        ensures
            res@ == self.spec_type_long(ty),
    {
        self.interned.types.long(ty.0)
    }

    pub fn trait_long(&self, id: ConcreteTraitId) -> (res: &ConcreteTraitLongId)
        requires
            self.has_trait(id),
        ensures
            res@ == self.spec_trait_long(id),
    {
        self.interned.concrete_traits.long(id.0)
    }

    pub fn impl_long(&self, id: ImplId) -> (res: ImplLongId)
        requires
            self.has_impl(id),
        ensures
            res == self.spec_impl_long(id),
    {
        *self.interned.impls.long(id.0)
    }

    pub fn concrete_impl_long(&self, id: ConcreteImplId) -> (res: &ConcreteImplLongId)
        requires
            self.has_concrete_impl(id),
        ensures
            res@ == self.spec_concrete_impl_long(id),
    {
        self.interned.concrete_impls.long(id.0)
    }

    /// The generated impl behind an id.
    pub fn lookup_intern_generated_impl(&self, id: GeneratedImplId) -> (res: &GeneratedImplLongId)
        requires
            self.has_generated(id),
        ensures
            res@ == self.spec_generated_long(id),
    {
        self.interned.generated_impls.long(id.0)
    }

    /// The generated impl before inference behind an id.
    pub fn lookup_intern_uninferred_generated_impl(
        &self,
        id: UninferredGeneratedImplId,
    ) -> (res: &UninferredGeneratedImplLongId)
        requires
            self.has_uninferred_generated(id),
        ensures
            res@ == self.spec_uninferred_generated_long(id),
    {
        self.interned.uninferred_generated_impls.long(id.0)
    }

    pub fn intern_type(&mut self, long: TypeLongId) -> (id: TypeId)
        requires
            old(self).wf(),
            old(self).sizes().has_type_parts(long@),
        ensures
            final(self).wf(),
            final(self).grown_from(*old(self)),
            final(self).has_type(id),
            final(self).spec_type_long(id) == long@,
            final(self).interned@ == (InternedView {
                types: interned_with(old(self).interned@.types, long@),
                ..old(self).interned@
            }),
    {
        let ghost before = *self;
        let id: u64 = self.interned.types.intern(long);
        proof {
            lemma_grown(before, *self);
        }
        TypeId(id)
    }

    pub fn intern_const_value(&mut self, long: ConstValue) -> (id: ConstValueId)
        requires
            old(self).wf(),
            old(self).sizes().has_const_parts(long),
        ensures
            final(self).wf(),
            final(self).grown_from(*old(self)),
            id.0 < final(self).interned@.const_values.len(),
            final(self).interned@.const_values[id.0 as int] == long,
    {
        let ghost before = *self;
        let id: u64 = self.interned.const_values.intern(long);
        proof {
            lemma_grown(before, *self);
        }
        ConstValueId(id)
    }

    pub fn intern_function(&mut self, long: FunctionLongId) -> (id: FunctionId)
        requires
            old(self).wf(),
            old(self).sizes().has_function_parts(long@),
        ensures
            final(self).wf(),
            final(self).grown_from(*old(self)),
            id.0 < final(self).interned@.functions.len(),
            final(self).interned@.functions[id.0 as int] == long@,
            final(self).interned@ == (InternedView {
                functions: interned_with(old(self).interned@.functions, long@),
                ..old(self).interned@
            }),
    {
        let ghost before = *self;
        let id: u64 = self.interned.functions.intern(long);
        proof {
            lemma_grown(before, *self);
        }
        FunctionId(id)
    }

    pub fn intern_concrete_trait(&mut self, long: ConcreteTraitLongId) -> (id: ConcreteTraitId)
        requires
            old(self).wf(),
            old(self).sizes().has_args(long@.generic_args),
        ensures
            final(self).wf(),
            final(self).grown_from(*old(self)),
            final(self).has_trait(id),
            final(self).spec_trait_long(id) == long@,
            final(self).interned@ == (InternedView {
                concrete_traits: interned_with(old(self).interned@.concrete_traits, long@),
                ..old(self).interned@
            }),
    {
        let ghost before = *self;
        let id: u64 = self.interned.concrete_traits.intern(long);
        proof {
            lemma_grown(before, *self);
        }
        ConcreteTraitId(id)
    }

    pub fn intern_concrete_impl(&mut self, long: ConcreteImplLongId) -> (id: ConcreteImplId)
        requires
            old(self).wf(),
            old(self).sizes().has_args(long@.generic_args),
        ensures
            final(self).wf(),
            final(self).grown_from(*old(self)),
            final(self).has_concrete_impl(id),
            final(self).spec_concrete_impl_long(id) == long@,
            final(self).interned@.impls == old(self).interned@.impls,
    {
        let ghost before = *self;
        let id: u64 = self.interned.concrete_impls.intern(long);
        proof {
            lemma_grown(before, *self);
        }
        ConcreteImplId(id)
    }

    pub fn intern_impl(&mut self, long: ImplLongId) -> (id: ImplId)
        requires
            old(self).wf(),
            old(self).interned@.impl_parts(old(self).interned@.impls.len() as int, long),
        ensures
            final(self).wf(),
            final(self).grown_from(*old(self)),
            final(self).has_impl(id),
            final(self).spec_impl_long(id) == long,
            final(self).interned@ == (InternedView {
                impls: interned_with(old(self).interned@.impls, long),
                ..old(self).interned@
            }),
    {
        let ghost before = *self;
        let id: u64 = self.interned.impls.intern(long);
        proof {
            lemma_grown(before, *self);
        }
        ImplId(id)
    }

    /// The id of a generated impl.
    pub fn intern_generated_impl(&mut self, long: GeneratedImplLongId) -> (id: GeneratedImplId)
        requires
            old(self).wf(),
            old(self).sizes().has_generated_parts(long@),
        ensures
            final(self).wf(),
            final(self).grown_from(*old(self)),
            final(self).has_generated(id),
            final(self).spec_generated_long(id) == long@,
            final(self).interned@ == (InternedView {
                generated_impls: interned_with(old(self).interned@.generated_impls, long@),
                ..old(self).interned@
            }),
    {
        let ghost before = *self;
        let id: u64 = self.interned.generated_impls.intern(long);
        proof {
            lemma_grown(before, *self);
        }
        GeneratedImplId(id)
    }

    /// The id of a generated impl before inference.
    pub fn intern_uninferred_generated_impl(
        &mut self,
        long: UninferredGeneratedImplLongId,
    ) -> (id: UninferredGeneratedImplId)
        requires
            old(self).wf(),
            old(self).sizes().has_uninferred_parts(long@),
        ensures
            final(self).wf(),
            final(self).grown_from(*old(self)),
            final(self).has_uninferred_generated(id),
            final(self).spec_uninferred_generated_long(id) == long@,
    {
        let ghost before = *self;
        let id: u64 = self.interned.uninferred_generated_impls.intern(long);
        proof {
            lemma_grown(before, *self);
        }
        UninferredGeneratedImplId(id)
    }
}

/// Interning values whose parts are interned keeps the database well-formed.
proof fn lemma_grown(before: SemanticGroup, after: SemanticGroup)
    requires
        before.wf(),
        after.facts == before.facts,
        after.interned@.distinct(),
        after.interned@.extends(before.interned@),
        forall|i: int|
            before.interned@.types.len() <= i < after.interned@.types.len()
                ==> before.sizes().has_type_parts(#[trigger] after.interned@.types[i]),
        forall|i: int|
            before.interned@.const_values.len() <= i < after.interned@.const_values.len()
                ==> before.sizes().has_const_parts(#[trigger] after.interned@.const_values[i]),
        forall|i: int|
            before.interned@.functions.len() <= i < after.interned@.functions.len()
                ==> before.sizes().has_function_parts(#[trigger] after.interned@.functions[i]),
        forall|i: int|
            before.interned@.concrete_traits.len() <= i < after.interned@.concrete_traits.len()
                ==> before.sizes().has_args(
                (#[trigger] after.interned@.concrete_traits[i]).generic_args,
            ),
        forall|i: int|
            before.interned@.concrete_impls.len() <= i < after.interned@.concrete_impls.len()
                ==> before.sizes().has_args(
                (#[trigger] after.interned@.concrete_impls[i]).generic_args,
            ),
        forall|i: int|
            before.interned@.impls.len() <= i < after.interned@.impls.len()
                ==> before.interned@.impl_parts(
                before.interned@.impls.len() as int,
                #[trigger] after.interned@.impls[i],
            ),
        forall|i: int|
            before.interned@.generated_impls.len() <= i < after.interned@.generated_impls.len()
                ==> before.sizes().has_generated_parts(
                #[trigger] after.interned@.generated_impls[i],
            ),
        forall|i: int|
            before.interned@.uninferred_generated_impls.len() <= i
                < after.interned@.uninferred_generated_impls.len()
                ==> before.sizes().has_uninferred_parts(
                #[trigger] after.interned@.uninferred_generated_impls[i],
            ),
    ensures
        after.wf(),
{
    let a = before.interned@;
    let b = after.interned@;
    before.facts.lemma_valid_monotone(before.sizes(), after.sizes());
    assert forall|i: int| 0 <= i < b.types.len() implies after.sizes().has_type_parts(
        #[trigger] b.types[i],
    ) by {
        if i < a.types.len() {
            assert(a.types[i] == b.types[i]);
        }
    }
    assert forall|i: int| 0 <= i < b.const_values.len() implies after.sizes().has_const_parts(
        #[trigger] b.const_values[i],
    ) by {
        if i < a.const_values.len() {
            assert(a.const_values[i] == b.const_values[i]);
        }
    }
    assert forall|i: int| 0 <= i < b.functions.len() implies after.sizes().has_function_parts(
        #[trigger] b.functions[i],
    ) by {
        if i < a.functions.len() {
            assert(a.functions[i] == b.functions[i]);
        }
    }
    assert forall|i: int| 0 <= i < b.concrete_traits.len() implies after.sizes().has_args(
        (#[trigger] b.concrete_traits[i]).generic_args,
    ) by {
        if i < a.concrete_traits.len() {
            assert(a.concrete_traits[i] == b.concrete_traits[i]);
        }
    }
    assert forall|i: int| 0 <= i < b.concrete_impls.len() implies after.sizes().has_args(
        (#[trigger] b.concrete_impls[i]).generic_args,
    ) by {
        if i < a.concrete_impls.len() {
            assert(a.concrete_impls[i] == b.concrete_impls[i]);
        }
    }
    assert forall|i: int| 0 <= i < b.impls.len() implies b.impl_parts(
        i,
        #[trigger] b.impls[i],
    ) by {
        if i < a.impls.len() {
            assert(a.impls[i] == b.impls[i]);
        }
        match b.impls[i] {
            ImplLongId::Concrete(c) => {
                assert(a.concrete_impls[c.0 as int] == b.concrete_impls[c.0 as int]);
            },
            _ => {},
        }
    }
    assert forall|i: int| 0 <= i < b.generated_impls.len() implies after.sizes().has_generated_parts(
        #[trigger] b.generated_impls[i],
    ) by {
        if i < a.generated_impls.len() {
            assert(a.generated_impls[i] == b.generated_impls[i]);
        }
    }
    assert forall|i: int|
        0 <= i < b.uninferred_generated_impls.len() implies after.sizes().has_uninferred_parts(
        #[trigger] b.uninferred_generated_impls[i],
    ) by {
        if i < a.uninferred_generated_impls.len() {
            assert(a.uninferred_generated_impls[i] == b.uninferred_generated_impls[i]);
        }
    }
}

} // verus!
