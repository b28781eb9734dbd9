//! The semantic values that the analysis works on.

use vstd::prelude::*;

use crate::collections::{copy_ids, same_ids, Id, Key, OrderedHashMap};
use crate::diagnostics::{DiagnosticAdded, Maybe};
use crate::ids::{
    ConcreteEnumId, ConcreteExternTypeId, ConcreteImplId, ConcreteStructId, ConcreteTraitId,
    ConstValueId, FunctionId, GeneratedImplId, GenericKind, GenericParamId, ImplAliasId, ImplDefId,
    ImplId, SyntaxStablePtrId, TraitConstantId, TraitFunctionId, TraitId, TraitImplId, TraitTypeId,
    TypeConstraints, TypeId, TypeVarId, UninferredGeneratedImplId,
};

verus! {

/// How a parameter may change.
#[derive(Clone, Copy, PartialEq, Eq, Structural, Debug)]
pub enum Mutability {
    Immutable,
    Mutable,
    Reference,
}

impl View for Mutability {
    type V = Mutability;

    open spec fn view(&self) -> Mutability {
        *self
    }
}

impl Key for Mutability {
    fn same(&self, other: &Self) -> (res: bool) {
        *self == *other
    }

    fn dup(&self) -> (res: Self) {
        *self
    }
}

impl Id for Mutability {
    fn equals(self, other: Self) -> (res: bool) {
        self == other
    }
}


/// An argument for a generic parameter.
#[derive(Clone, Copy, PartialEq, Eq, Structural, Debug)]
pub enum GenericArgumentId {
    Type(TypeId),
    Value(ConstValueId),
    Impl(ImplId),
    NegImpl,
}

impl View for GenericArgumentId {
    type V = GenericArgumentId;

    open spec fn view(&self) -> GenericArgumentId {
        *self
    }
}

impl Key for GenericArgumentId {
    fn same(&self, other: &Self) -> (res: bool) {
        *self == *other
    }

    fn dup(&self) -> (res: Self) {
        *self
    }
}

impl Id for GenericArgumentId {
    fn equals(self, other: Self) -> (res: bool) {
        self == other
    }
}


/// A type parameter.
#[derive(Clone, Copy, PartialEq, Eq, Structural, Debug)]
pub struct GenericParamType {
    pub id: GenericParamId,
}

impl View for GenericParamType {
    type V = GenericParamType;

    open spec fn view(&self) -> GenericParamType {
        *self
    }
}

impl Key for GenericParamType {
    fn same(&self, other: &Self) -> (res: bool) {
        *self == *other
    }

    fn dup(&self) -> (res: Self) {
        *self
    }
}

impl Id for GenericParamType {
    fn equals(self, other: Self) -> (res: bool) {
        self == other
    }
}


/// A constant parameter.
#[derive(Clone, Copy, PartialEq, Eq, Structural, Debug)]
pub struct GenericParamConst {
    pub id: GenericParamId,
    pub ty: TypeId,
}

impl View for GenericParamConst {
    type V = GenericParamConst;

    open spec fn view(&self) -> GenericParamConst {
        *self
    }
}

impl Key for GenericParamConst {
    fn same(&self, other: &Self) -> (res: bool) {
        *self == *other
    }

    fn dup(&self) -> (res: Self) {
        *self
    }
}

impl Id for GenericParamConst {
    fn equals(self, other: Self) -> (res: bool) {
        self == other
    }
}


/// An impl parameter, or one that forbids an impl.
#[derive(Clone, Copy, PartialEq, Eq, Debug)]
pub struct GenericParamImpl {
    pub id: GenericParamId,
    pub concrete_trait: Maybe<ConcreteTraitId>,
    pub type_constraints: TypeConstraints,
}

/// A generic parameter.
#[derive(Clone, Copy, PartialEq, Eq, Debug)]
pub enum GenericParam {
    Type(GenericParamType),
    Const(GenericParamConst),
    Impl(GenericParamImpl),
    NegImpl(GenericParamImpl),
}

/// Whether two resolutions agree.
pub fn same_maybe<I: Id>(a: Maybe<I>, b: Maybe<I>) -> (res: bool)
    ensures
        res == (a == b),
{
    match (a, b) {
        (Ok(x), Ok(y)) => x.equals(y),
        (Err(x), Err(y)) => x == y,
        _ => false,
    }
}

impl Id for GenericParamImpl {
    fn equals(self, other: Self) -> (res: bool) {
        self.id == other.id && same_maybe(self.concrete_trait, other.concrete_trait)
            && self.type_constraints == other.type_constraints
    }
}

impl Id for GenericParam {
    fn equals(self, other: Self) -> (res: bool) {
        match (self, other) {
            (GenericParam::Type(a), GenericParam::Type(b)) => a == b,
            (GenericParam::Const(a), GenericParam::Const(b)) => a == b,
            (GenericParam::Impl(a), GenericParam::Impl(b)) => a.equals(b),
            (GenericParam::NegImpl(a), GenericParam::NegImpl(b)) => a.equals(b),
            _ => false,
        }
    }
}

impl GenericParam {
    pub open spec fn spec_id(self) -> GenericParamId {
        match self {
            GenericParam::Type(p) => p.id,
            GenericParam::Const(p) => p.id,
            GenericParam::Impl(p) => p.id,
            GenericParam::NegImpl(p) => p.id,
        }
    }

    pub open spec fn spec_kind(self) -> GenericKind {
        match self {
            GenericParam::Type(_) => GenericKind::Type,
            GenericParam::Const(_) => GenericKind::Const,
            GenericParam::Impl(_) => GenericKind::Impl,
            GenericParam::NegImpl(_) => GenericKind::NegImpl,
        }
    }

    pub fn id(&self) -> (res: GenericParamId)
        ensures
            res == self.spec_id(),
    {
        match self {
            GenericParam::Type(p) => p.id,
            GenericParam::Const(p) => p.id,
            GenericParam::Impl(p) => p.id,
            GenericParam::NegImpl(p) => p.id,
        }
    }

    pub fn kind(&self) -> (res: GenericKind)
        ensures
            res == self.spec_kind(),
    {
        match self {
            GenericParam::Type(_) => GenericKind::Type,
            GenericParam::Const(_) => GenericKind::Const,
            GenericParam::Impl(_) => GenericKind::Impl,
            GenericParam::NegImpl(_) => GenericKind::NegImpl,
        }
    }
}

/// A trait with its generic arguments.
#[derive(Debug)]
pub struct ConcreteTraitLongId<A = Vec<GenericArgumentId>> {
    pub trait_id: TraitId,
    pub generic_args: A,
}

pub type ConcreteTraitView = ConcreteTraitLongId<Seq<GenericArgumentId>>;

impl View for ConcreteTraitLongId {
    type V = ConcreteTraitView;

    open spec fn view(&self) -> ConcreteTraitView {
        ConcreteTraitLongId { trait_id: self.trait_id, generic_args: self.generic_args@ }
    }
}

impl Key for ConcreteTraitLongId {
    fn same(&self, other: &Self) -> (res: bool) {
        self.trait_id == other.trait_id && same_ids(&self.generic_args, &other.generic_args)
    }

    fn dup(&self) -> (res: Self) {
        ConcreteTraitLongId { trait_id: self.trait_id, generic_args: copy_ids(&self.generic_args) }
    }
}

/// An impl definition with its generic arguments.
#[derive(Debug)]
pub struct ConcreteImplLongId<A = Vec<GenericArgumentId>> {
    pub impl_def_id: ImplDefId,
    pub generic_args: A,
}

pub type ConcreteImplView = ConcreteImplLongId<Seq<GenericArgumentId>>;

impl View for ConcreteImplLongId {
    type V = ConcreteImplView;

    open spec fn view(&self) -> ConcreteImplView {
        ConcreteImplLongId { impl_def_id: self.impl_def_id, generic_args: self.generic_args@ }
    }
}

impl Key for ConcreteImplLongId {
    fn same(&self, other: &Self) -> (res: bool) {
        self.impl_def_id == other.impl_def_id && same_ids(&self.generic_args, &other.generic_args)
    }

    fn dup(&self) -> (res: Self) {
        ConcreteImplLongId {
            impl_def_id: self.impl_def_id,
            generic_args: copy_ids(&self.generic_args),
        }
    }
}

/// An impl that inference has yet to find.
#[derive(Clone, Copy, PartialEq, Eq, Structural, Debug)]
pub struct ImplVarId {
    /// The number of the variable.
    pub id: u64,
    pub concrete_trait_id: ConcreteTraitId,
}

impl View for ImplVarId {
    type V = ImplVarId;

    open spec fn view(&self) -> ImplVarId {
        *self
    }
}

impl Key for ImplVarId {
    fn same(&self, other: &Self) -> (res: bool) {
        *self == *other
    }

    fn dup(&self) -> (res: Self) {
        *self
    }
}

impl Id for ImplVarId {
    fn equals(self, other: Self) -> (res: bool) {
        self == other
    }
}


/// An impl item of kind impl.
#[derive(Clone, Copy, PartialEq, Eq, Structural, Debug)]
pub struct ImplImplId {
    /// The impl the item impl is in.
    pub impl_id: ImplId,
    /// The trait impl this impl impl implements.
    pub trait_impl_id: TraitImplId,
}

impl View for ImplImplId {
    type V = ImplImplId;

    open spec fn view(&self) -> ImplImplId {
        *self
    }
}

impl Key for ImplImplId {
    fn same(&self, other: &Self) -> (res: bool) {
        *self == *other
    }

    fn dup(&self) -> (res: Self) {
        *self
    }
}

impl Id for ImplImplId {
    fn equals(self, other: Self) -> (res: bool) {
        self == other
    }
}


/// An impl item of kind type.
#[derive(Clone, Copy, PartialEq, Eq, Structural, Debug)]
pub struct ImplTypeId {
    /// The impl the item type is in.
    pub impl_id: ImplId,
    /// The trait type this impl type implements.
    pub ty: TraitTypeId,
}

impl View for ImplTypeId {
    type V = ImplTypeId;

    open spec fn view(&self) -> ImplTypeId {
        *self
    }
}

impl Key for ImplTypeId {
    fn same(&self, other: &Self) -> (res: bool) {
        *self == *other
    }

    fn dup(&self) -> (res: Self) {
        *self
    }
}

impl Id for ImplTypeId {
    fn equals(self, other: Self) -> (res: bool) {
        self == other
    }
}


/// An impl item of kind constant.
#[derive(Clone, Copy, PartialEq, Eq, Structural, Debug)]
pub struct ImplConstantId {
    /// The impl the item constant is in.
    pub impl_id: ImplId,
    /// The trait constant this impl constant implements.
    pub trait_constant_id: TraitConstantId,
}

impl View for ImplConstantId {
    type V = ImplConstantId;

    open spec fn view(&self) -> ImplConstantId {
        *self
    }
}

impl Key for ImplConstantId {
    fn same(&self, other: &Self) -> (res: bool) {
        *self == *other
    }

    fn dup(&self) -> (res: Self) {
        *self
    }
}

impl Id for ImplConstantId {
    fn equals(self, other: Self) -> (res: bool) {
        self == other
    }
}


/// Represents a "callee" impl that can be referred to in the code.
/// Traits should be resolved to this.
#[derive(Clone, Copy, PartialEq, Eq, Structural, Debug)]
pub enum ImplLongId {
    Concrete(ConcreteImplId),
    GenericParameter(GenericParamId),
    ImplVar(ImplVarId),
    ImplImpl(ImplImplId),
    SelfImpl(ConcreteTraitId),
    GeneratedImpl(GeneratedImplId),
}

impl View for ImplLongId {
    type V = ImplLongId;

    open spec fn view(&self) -> ImplLongId {
        *self
    }
}

impl Key for ImplLongId {
    fn same(&self, other: &Self) -> (res: bool) {
        *self == *other
    }

    fn dup(&self) -> (res: Self) {
        *self
    }
}

impl Id for ImplLongId {
    fn equals(self, other: Self) -> (res: bool) {
        self == other
    }
}


/// Head of an impl.
///
/// A non-param non-variable impl has a head, which represents the kind of the root node in its tree
/// representation. This is used for caching queries for fast lookups when the impl is not
/// completely inferred yet.
#[derive(Clone, Copy, PartialEq, Eq, Structural, Debug)]
pub enum ImplHead {
    /// The definition of a concrete impl.
    Concrete(ImplDefId),
    /// The trait impl that an impl item is of.
    ImplImpl(TraitImplId),
    /// The trait that refers to an impl of its own.
    SelfImpl(TraitId),
    /// The trait of a generated impl.
    GeneratedImpl(TraitId),
}

impl View for ImplHead {
    type V = ImplHead;

    open spec fn view(&self) -> ImplHead {
        *self
    }
}

impl Key for ImplHead {
    fn same(&self, other: &Self) -> (res: bool) {
        *self == *other
    }

    fn dup(&self) -> (res: Self) {
        *self
    }
}

impl Id for ImplHead {
    fn equals(self, other: Self) -> (res: bool) {
        self == other
    }
}


/// The associated types of an impl made by the compiler.
pub struct GeneratedImplItems(pub OrderedHashMap<TraitTypeId, TypeId>);

/// What is known of the associated types of an impl made by the compiler.
pub enum GeneratedImplAssociatedTypes {
    /// The associated types are not yet resolved.
    Unresolved,
    /// The associated types are resolved.
    Resolved(OrderedHashMap<TraitTypeId, TypeId>),
}

/// An impl that is generated by the compiler for a specific trait.
/// There can be only one such impl per concrete trait as otherwise the impls found would be
/// ambiguous.
pub struct GeneratedImplLongId<P = Vec<GenericParam>, I = GeneratedImplItems> {
    pub concrete_trait: ConcreteTraitId,
    /// The generic params required for the impl. Typically impls and negative impls.
    /// The params are kept so that negative impls can be validated.
    pub generic_params: P,
    pub impl_items: I,
}

pub type GeneratedImplView = GeneratedImplLongId<Seq<GenericParam>, Seq<(TraitTypeId, TypeId)>>;

/// Generated impls before inference, see [GeneratedImplLongId] for more details.
pub struct UninferredGeneratedImplLongId<P = Vec<GenericParam>, I = GeneratedImplItems> {
    pub concrete_trait: ConcreteTraitId,
    pub generic_params: P,
    pub impl_items: I,
}

pub type UninferredGeneratedImplView = UninferredGeneratedImplLongId<
    Seq<GenericParam>,
    Seq<(TraitTypeId, TypeId)>,
>;

impl View for GeneratedImplLongId {
    type V = GeneratedImplView;

    open spec fn view(&self) -> GeneratedImplView {
        GeneratedImplLongId {
            concrete_trait: self.concrete_trait,
            generic_params: self.generic_params@,
            impl_items: self.impl_items.0@,
        }
    }
}

impl Key for GeneratedImplLongId {
    fn same(&self, other: &Self) -> (res: bool) {
        self.concrete_trait == other.concrete_trait && same_ids(
            &self.generic_params,
            &other.generic_params,
        ) && self.impl_items.0.same_entries(&other.impl_items.0)
    }

    fn dup(&self) -> (res: Self) {
        GeneratedImplLongId {
            concrete_trait: self.concrete_trait,
            generic_params: copy_ids(&self.generic_params),
            impl_items: GeneratedImplItems(self.impl_items.0.copy()),
        }
    }
}

impl View for UninferredGeneratedImplLongId {
    type V = UninferredGeneratedImplView;

    open spec fn view(&self) -> UninferredGeneratedImplView {
        UninferredGeneratedImplLongId {
            concrete_trait: self.concrete_trait,
            generic_params: self.generic_params@,
            impl_items: self.impl_items.0@,
        }
    }
}

impl Key for UninferredGeneratedImplLongId {
    fn same(&self, other: &Self) -> (res: bool) {
        self.concrete_trait == other.concrete_trait && same_ids(
            &self.generic_params,
            &other.generic_params,
        ) && self.impl_items.0.same_entries(&other.impl_items.0)
    }

    fn dup(&self) -> (res: Self) {
        UninferredGeneratedImplLongId {
            concrete_trait: self.concrete_trait,
            generic_params: copy_ids(&self.generic_params),
            impl_items: GeneratedImplItems(self.impl_items.0.copy()),
        }
    }
}

/// A candidate impl for later inference.
#[derive(Clone, Copy, PartialEq, Eq, Structural, Debug)]
pub enum UninferredImpl {
    Def(ImplDefId),
    ImplAlias(ImplAliasId),
    GenericParam(GenericParamId),
    ImplImpl(ImplImplId),
    GeneratedImpl(UninferredGeneratedImplId),
}

impl View for UninferredImpl {
    type V = UninferredImpl;

    open spec fn view(&self) -> UninferredImpl {
        *self
    }
}

impl Key for UninferredImpl {
    fn same(&self, other: &Self) -> (res: bool) {
        *self == *other
    }

    fn dup(&self) -> (res: Self) {
        *self
    }
}

impl Id for UninferredImpl {
    fn equals(self, other: Self) -> (res: bool) {
        self == other
    }
}


/// A type that is named by an item and its generic arguments.
#[derive(Clone, Copy, PartialEq, Eq, Structural, Debug)]
pub enum ConcreteTypeId {
    Struct(ConcreteStructId),
    Enum(ConcreteEnumId),
    Extern(ConcreteExternTypeId),
}

impl View for ConcreteTypeId {
    type V = ConcreteTypeId;

    open spec fn view(&self) -> ConcreteTypeId {
        *self
    }
}

impl Key for ConcreteTypeId {
    fn same(&self, other: &Self) -> (res: bool) {
        *self == *other
    }

    fn dup(&self) -> (res: Self) {
        *self
    }
}

impl Id for ConcreteTypeId {
    fn equals(self, other: Self) -> (res: bool) {
        self == other
    }
}


/// The type of a closure.
#[derive(Debug)]
pub struct ClosureTypeLongId<L = Vec<TypeId>> {
    pub param_tys: L,
    pub ret_ty: TypeId,
    pub captured_types: L,
    /// Where the closure stands.
    pub wrapper_location: SyntaxStablePtrId,
}

/// A type.
#[derive(Debug)]
pub enum TypeLongId<L = Vec<TypeId>> {
    Concrete(ConcreteTypeId),
    Tuple(L),
    Snapshot(TypeId),
    GenericParameter(GenericParamId),
    Var(TypeVarId),
    Coupon(FunctionId),
    ImplType(ImplTypeId),
    FixedSizeArray { type_id: TypeId, size: ConstValueId },
    Closure(ClosureTypeLongId<L>),
    Missing(DiagnosticAdded),
}

pub type TypeView = TypeLongId<Seq<TypeId>>;

pub type ClosureTypeView = ClosureTypeLongId<Seq<TypeId>>;

impl View for ClosureTypeLongId {
    type V = ClosureTypeView;

    open spec fn view(&self) -> ClosureTypeView {
        ClosureTypeLongId {
            param_tys: self.param_tys@,
            ret_ty: self.ret_ty,
            captured_types: self.captured_types@,
            wrapper_location: self.wrapper_location,
        }
    }
}

impl Key for ClosureTypeLongId {
    fn same(&self, other: &Self) -> (res: bool) {
        self.ret_ty == other.ret_ty && self.wrapper_location == other.wrapper_location && same_ids(
            &self.param_tys,
            &other.param_tys,
        ) && same_ids(&self.captured_types, &other.captured_types)
    }

    fn dup(&self) -> (res: Self) {
        ClosureTypeLongId {
            param_tys: copy_ids(&self.param_tys),
            ret_ty: self.ret_ty,
            captured_types: copy_ids(&self.captured_types),
            wrapper_location: self.wrapper_location,
        }
    }
}

impl View for TypeLongId {
    type V = TypeView;

    open spec fn view(&self) -> TypeView {
        match self {
            TypeLongId::Concrete(x) => TypeLongId::Concrete(*x),
            TypeLongId::Tuple(x) => TypeLongId::Tuple(x@),
            TypeLongId::Snapshot(x) => TypeLongId::Snapshot(*x),
            TypeLongId::GenericParameter(x) => TypeLongId::GenericParameter(*x),
            TypeLongId::Var(x) => TypeLongId::Var(*x),
            TypeLongId::Coupon(x) => TypeLongId::Coupon(*x),
            TypeLongId::ImplType(x) => TypeLongId::ImplType(*x),
            TypeLongId::FixedSizeArray { type_id, size } => TypeLongId::FixedSizeArray {
                type_id: *type_id,
                size: *size,
            },
            TypeLongId::Closure(x) => TypeLongId::Closure(x@),
            TypeLongId::Missing(x) => TypeLongId::Missing(*x),
        }
    }
}

impl Key for TypeLongId {
    fn same(&self, other: &Self) -> (res: bool) {
        match (self, other) {
            (TypeLongId::Concrete(a), TypeLongId::Concrete(b)) => *a == *b,
            (TypeLongId::Tuple(a), TypeLongId::Tuple(b)) => same_ids(a, b),
            (TypeLongId::Snapshot(a), TypeLongId::Snapshot(b)) => *a == *b,
            (TypeLongId::GenericParameter(a), TypeLongId::GenericParameter(b)) => *a == *b,
            (TypeLongId::Var(a), TypeLongId::Var(b)) => *a == *b,
            (TypeLongId::Coupon(a), TypeLongId::Coupon(b)) => *a == *b,
            (TypeLongId::ImplType(a), TypeLongId::ImplType(b)) => *a == *b,
            (
                TypeLongId::FixedSizeArray { type_id: a, size: m },
                TypeLongId::FixedSizeArray { type_id: b, size: n },
            ) => *a == *b && *m == *n,
            (TypeLongId::Closure(a), TypeLongId::Closure(b)) => a.same(b),
            (TypeLongId::Missing(a), TypeLongId::Missing(b)) => *a == *b,
            _ => false,
        }
    }

    fn dup(&self) -> (res: Self) {
        match self {
            TypeLongId::Concrete(x) => TypeLongId::Concrete(*x),
            TypeLongId::Tuple(x) => TypeLongId::Tuple(copy_ids(x)),
            TypeLongId::Snapshot(x) => TypeLongId::Snapshot(*x),
            TypeLongId::GenericParameter(x) => TypeLongId::GenericParameter(*x),
            TypeLongId::Var(x) => TypeLongId::Var(*x),
            TypeLongId::Coupon(x) => TypeLongId::Coupon(*x),
            TypeLongId::ImplType(x) => TypeLongId::ImplType(*x),
            TypeLongId::FixedSizeArray { type_id, size } => TypeLongId::FixedSizeArray {
                type_id: *type_id,
                size: *size,
            },
            TypeLongId::Closure(x) => TypeLongId::Closure(x.dup()),
            TypeLongId::Missing(x) => TypeLongId::Missing(*x),
        }
    }
}

/// A constant value.
#[derive(Clone, Copy, PartialEq, Eq, Structural, Debug)]
pub enum ConstValue {
    ImplConstant(ImplConstantId),
    /// Any other value, by its number.
    Other(u64),
}

impl View for ConstValue {
    type V = ConstValue;

    open spec fn view(&self) -> ConstValue {
        *self
    }
}

impl Key for ConstValue {
    fn same(&self, other: &Self) -> (res: bool) {
        *self == *other
    }

    fn dup(&self) -> (res: Self) {
        *self
    }
}

impl Id for ConstValue {
    fn equals(self, other: Self) -> (res: bool) {
        self == other
    }
}


/// A function of a trait, as an impl provides it.
#[derive(Clone, Copy, PartialEq, Eq, Structural, Debug)]
pub struct ImplGenericFunctionId {
    pub impl_id: ImplId,
    pub function: TraitFunctionId,
}

impl View for ImplGenericFunctionId {
    type V = ImplGenericFunctionId;

    open spec fn view(&self) -> ImplGenericFunctionId {
        *self
    }
}

impl Key for ImplGenericFunctionId {
    fn same(&self, other: &Self) -> (res: bool) {
        *self == *other
    }

    fn dup(&self) -> (res: Self) {
        *self
    }
}

impl Id for ImplGenericFunctionId {
    fn equals(self, other: Self) -> (res: bool) {
        self == other
    }
}


/// A function without its generic arguments.
#[derive(Clone, Copy, PartialEq, Eq, Structural, Debug)]
pub enum GenericFunctionId {
    Impl(ImplGenericFunctionId),
    /// Any other function, by its number.
    Other(u64),
}

impl View for GenericFunctionId {
    type V = GenericFunctionId;

    open spec fn view(&self) -> GenericFunctionId {
        *self
    }
}

impl Key for GenericFunctionId {
    fn same(&self, other: &Self) -> (res: bool) {
        *self == *other
    }

    fn dup(&self) -> (res: Self) {
        *self
    }
}

impl Id for GenericFunctionId {
    fn equals(self, other: Self) -> (res: bool) {
        self == other
    }
}


/// A function with its generic arguments.
#[derive(Debug)]
pub struct FunctionLongId<A = Vec<GenericArgumentId>> {
    pub generic_function: GenericFunctionId,
    pub generic_args: A,
}

pub type FunctionView = FunctionLongId<Seq<GenericArgumentId>>;

impl View for FunctionLongId {
    type V = FunctionView;

    open spec fn view(&self) -> FunctionView {
        FunctionLongId {
            generic_function: self.generic_function,
            generic_args: self.generic_args@,
        }
    }
}

impl Key for FunctionLongId {
    fn same(&self, other: &Self) -> (res: bool) {
        self.generic_function == other.generic_function && same_ids(
            &self.generic_args,
            &other.generic_args,
        )
    }

    fn dup(&self) -> (res: Self) {
        FunctionLongId {
            generic_function: self.generic_function,
            generic_args: copy_ids(&self.generic_args),
        }
    }
}

impl Key for String {
    fn same(&self, other: &Self) -> (res: bool) {
        *self == *other
    }

    fn dup(&self) -> (res: Self) {
        self.clone()
    }
}

// --- Laws ---

/// A generic parameter has the kind of its variant, and the id that it was made with.
pub proof fn law_generic_parameters_have_the_kind_of_their_variant(param: GenericParam)
    ensures
        match param {
            GenericParam::Type(p) => param.spec_kind() is Type && param.spec_id() == p.id,
            GenericParam::Const(p) => param.spec_kind() is Const && param.spec_id() == p.id,
            GenericParam::Impl(p) => param.spec_kind() is Impl && param.spec_id() == p.id,
            GenericParam::NegImpl(p) => param.spec_kind() is NegImpl && param.spec_id() == p.id,
        },
{
}

} // verus!
