//! Identifiers of the language elements and of the interned semantic values.

use vstd::prelude::*;

use crate::collections::{Id, Key};

verus! {

/// An interned name.
#[derive(Clone, Copy, PartialEq, Eq, Structural, Debug)]
pub struct SmolStrId(pub u64);

impl View for SmolStrId {
    type V = SmolStrId;

    open spec fn view(&self) -> SmolStrId {
        *self
    }
}

impl Key for SmolStrId {
    fn same(&self, other: &Self) -> (res: bool) {
        *self == *other
    }

    fn dup(&self) -> (res: Self) {
        *self
    }
}

impl Id for SmolStrId {
    fn equals(self, other: Self) -> (res: bool) {
        self == other
    }
}

/// A place in the syntax tree.
#[derive(Clone, Copy, PartialEq, Eq, Structural, Debug)]
pub struct SyntaxStablePtrId(pub u64);

impl View for SyntaxStablePtrId {
    type V = SyntaxStablePtrId;

    open spec fn view(&self) -> SyntaxStablePtrId {
        *self
    }
}

impl Key for SyntaxStablePtrId {
    fn same(&self, other: &Self) -> (res: bool) {
        *self == *other
    }

    fn dup(&self) -> (res: Self) {
        *self
    }
}

impl Id for SyntaxStablePtrId {
    fn equals(self, other: Self) -> (res: bool) {
        self == other
    }
}

/// A crate.
#[derive(Clone, Copy, PartialEq, Eq, PartialOrd, Ord, Structural, Debug)]
pub struct CrateId(pub u64);

impl View for CrateId {
    type V = CrateId;

    open spec fn view(&self) -> CrateId {
        *self
    }
}

impl Key for CrateId {
    fn same(&self, other: &Self) -> (res: bool) {
        *self == *other
    }

    fn dup(&self) -> (res: Self) {
        *self
    }
}

impl Id for CrateId {
    fn equals(self, other: Self) -> (res: bool) {
        self == other
    }
}

/// A module below a crate root.
#[derive(Clone, Copy, PartialEq, Eq, PartialOrd, Ord, Structural, Debug)]
pub struct SubmoduleId(pub u64);

impl View for SubmoduleId {
    type V = SubmoduleId;

    open spec fn view(&self) -> SubmoduleId {
        *self
    }
}

impl Key for SubmoduleId {
    fn same(&self, other: &Self) -> (res: bool) {
        *self == *other
    }

    fn dup(&self) -> (res: Self) {
        *self
    }
}

impl Id for SubmoduleId {
    fn equals(self, other: Self) -> (res: bool) {
        self == other
    }
}

/// A `use` item.
#[derive(Clone, Copy, PartialEq, Eq, Structural, Debug)]
pub struct UseId(pub u64);

impl View for UseId {
    type V = UseId;

    open spec fn view(&self) -> UseId {
        *self
    }
}

impl Key for UseId {
    fn same(&self, other: &Self) -> (res: bool) {
        *self == *other
    }

    fn dup(&self) -> (res: Self) {
        *self
    }
}

impl Id for UseId {
    fn equals(self, other: Self) -> (res: bool) {
        self == other
    }
}

/// A module.
#[derive(Clone, Copy, PartialEq, Eq, PartialOrd, Ord, Structural, Debug)]
pub enum ModuleId {
    CrateRoot(CrateId),
    Submodule(SubmoduleId),
}

impl View for ModuleId {
    type V = ModuleId;

    open spec fn view(&self) -> ModuleId {
        *self
    }
}

impl Key for ModuleId {
    fn same(&self, other: &Self) -> (res: bool) {
        *self == *other
    }

    fn dup(&self) -> (res: Self) {
        *self
    }
}

impl Id for ModuleId {
    fn equals(self, other: Self) -> (res: bool) {
        self == other
    }
}

/// A file of a module.
#[derive(Clone, Copy, PartialEq, Eq, Structural, Debug)]
pub struct ModuleFileId(pub ModuleId, pub u64);

impl View for ModuleFileId {
    type V = ModuleFileId;

    open spec fn view(&self) -> ModuleFileId {
        *self
    }
}

impl Key for ModuleFileId {
    fn same(&self, other: &Self) -> (res: bool) {
        *self == *other
    }

    fn dup(&self) -> (res: Self) {
        *self
    }
}

impl Id for ModuleFileId {
    fn equals(self, other: Self) -> (res: bool) {
        self == other
    }
}

/// An impl definition.
#[derive(Clone, Copy, PartialEq, Eq, Structural, Debug)]
pub struct ImplDefId {
    pub module_file_id: ModuleFileId,
    pub stable_ptr: SyntaxStablePtrId,
}

impl View for ImplDefId {
    type V = ImplDefId;

    open spec fn view(&self) -> ImplDefId {
        *self
    }
}

impl Key for ImplDefId {
    fn same(&self, other: &Self) -> (res: bool) {
        *self == *other
    }

    fn dup(&self) -> (res: Self) {
        *self
    }
}

impl Id for ImplDefId {
    fn equals(self, other: Self) -> (res: bool) {
        self == other
    }
}

/// An impl alias.
#[derive(Clone, Copy, PartialEq, Eq, Structural, Debug)]
pub struct ImplAliasId {
    pub module_file_id: ModuleFileId,
    pub stable_ptr: SyntaxStablePtrId,
}

impl View for ImplAliasId {
    type V = ImplAliasId;

    open spec fn view(&self) -> ImplAliasId {
        *self
    }
}

impl Key for ImplAliasId {
    fn same(&self, other: &Self) -> (res: bool) {
        *self == *other
    }

    fn dup(&self) -> (res: Self) {
        *self
    }
}

impl Id for ImplAliasId {
    fn equals(self, other: Self) -> (res: bool) {
        self == other
    }
}

/// A trait.
#[derive(Clone, Copy, PartialEq, Eq, Structural, Debug)]
pub struct TraitId {
    pub module_file_id: ModuleFileId,
    pub stable_ptr: SyntaxStablePtrId,
}

impl View for TraitId {
    type V = TraitId;

    open spec fn view(&self) -> TraitId {
        *self
    }
}

impl Key for TraitId {
    fn same(&self, other: &Self) -> (res: bool) {
        *self == *other
    }

    fn dup(&self) -> (res: Self) {
        *self
    }
}

impl Id for TraitId {
    fn equals(self, other: Self) -> (res: bool) {
        self == other
    }
}

/// The kind of a generic parameter.
#[derive(Clone, Copy, PartialEq, Eq, Structural, Debug)]
pub enum GenericKind {
    Type,
    Const,
    Impl,
    NegImpl,
}

impl View for GenericKind {
    type V = GenericKind;

    open spec fn view(&self) -> GenericKind {
        *self
    }
}

impl Key for GenericKind {
    fn same(&self, other: &Self) -> (res: bool) {
        *self == *other
    }

    fn dup(&self) -> (res: Self) {
        *self
    }
}

impl Id for GenericKind {
    fn equals(self, other: Self) -> (res: bool) {
        self == other
    }
}

/// A generic parameter.
#[derive(Clone, Copy, PartialEq, Eq, Structural, Debug)]
pub struct GenericParamId {
    pub module_file_id: ModuleFileId,
    pub stable_ptr: SyntaxStablePtrId,
    pub kind: GenericKind,
    /// An impl parameter may be anonymous.
    pub name: Option<SmolStrId>,
}

impl View for GenericParamId {
    type V = GenericParamId;

    open spec fn view(&self) -> GenericParamId {
        *self
    }
}

impl Key for GenericParamId {
    fn same(&self, other: &Self) -> (res: bool) {
        *self == *other
    }

    fn dup(&self) -> (res: Self) {
        *self
    }
}

impl Id for GenericParamId {
    fn equals(self, other: Self) -> (res: bool) {
        self == other
    }
}

/// A function of a trait.
#[derive(Clone, Copy, PartialEq, Eq, Structural, Debug)]
pub struct TraitFunctionId {
    /// The trait that declares the item.
    pub trait_id: TraitId,
    pub name: SmolStrId,
    pub stable_ptr: SyntaxStablePtrId,
}

impl View for TraitFunctionId {
    type V = TraitFunctionId;

    open spec fn view(&self) -> TraitFunctionId {
        *self
    }
}

impl Key for TraitFunctionId {
    fn same(&self, other: &Self) -> (res: bool) {
        *self == *other
    }

    fn dup(&self) -> (res: Self) {
        *self
    }
}

impl Id for TraitFunctionId {
    fn equals(self, other: Self) -> (res: bool) {
        self == other
    }
}

/// An associated type of a trait.
#[derive(Clone, Copy, PartialEq, Eq, Structural, Debug)]
pub struct TraitTypeId {
    /// The trait that declares the item.
    pub trait_id: TraitId,
    pub name: SmolStrId,
    pub stable_ptr: SyntaxStablePtrId,
}

impl View for TraitTypeId {
    type V = TraitTypeId;

    open spec fn view(&self) -> TraitTypeId {
        *self
    }
}

impl Key for TraitTypeId {
    fn same(&self, other: &Self) -> (res: bool) {
        *self == *other
    }

    fn dup(&self) -> (res: Self) {
        *self
    }
}

impl Id for TraitTypeId {
    fn equals(self, other: Self) -> (res: bool) {
        self == other
    }
}

/// An associated constant of a trait.
#[derive(Clone, Copy, PartialEq, Eq, Structural, Debug)]
pub struct TraitConstantId {
    /// The trait that declares the item.
    pub trait_id: TraitId,
    pub name: SmolStrId,
    pub stable_ptr: SyntaxStablePtrId,
}

impl View for TraitConstantId {
    type V = TraitConstantId;

    open spec fn view(&self) -> TraitConstantId {
        *self
    }
}

impl Key for TraitConstantId {
    fn same(&self, other: &Self) -> (res: bool) {
        *self == *other
    }

    fn dup(&self) -> (res: Self) {
        *self
    }
}

impl Id for TraitConstantId {
    fn equals(self, other: Self) -> (res: bool) {
        self == other
    }
}

/// An associated impl of a trait.
#[derive(Clone, Copy, PartialEq, Eq, Structural, Debug)]
pub struct TraitImplId {
    /// The trait that declares the item.
    pub trait_id: TraitId,
    pub name: SmolStrId,
    pub stable_ptr: SyntaxStablePtrId,
}

impl View for TraitImplId {
    type V = TraitImplId;

    open spec fn view(&self) -> TraitImplId {
        *self
    }
}

impl Key for TraitImplId {
    fn same(&self, other: &Self) -> (res: bool) {
        *self == *other
    }

    fn dup(&self) -> (res: Self) {
        *self
    }
}

impl Id for TraitImplId {
    fn equals(self, other: Self) -> (res: bool) {
        self == other
    }
}

/// A function of an impl.
#[derive(Clone, Copy, PartialEq, Eq, Structural, Debug)]
pub struct ImplFunctionId {
    /// The impl that holds the item.
    pub impl_def_id: ImplDefId,
    pub name: SmolStrId,
    pub stable_ptr: SyntaxStablePtrId,
}

impl View for ImplFunctionId {
    type V = ImplFunctionId;

    open spec fn view(&self) -> ImplFunctionId {
        *self
    }
}

impl Key for ImplFunctionId {
    fn same(&self, other: &Self) -> (res: bool) {
        *self == *other
    }

    fn dup(&self) -> (res: Self) {
        *self
    }
}

impl Id for ImplFunctionId {
    fn equals(self, other: Self) -> (res: bool) {
        self == other
    }
}

/// An associated type of an impl.
#[derive(Clone, Copy, PartialEq, Eq, Structural, Debug)]
pub struct ImplTypeDefId {
    /// The impl that holds the item.
    pub impl_def_id: ImplDefId,
    pub name: SmolStrId,
    pub stable_ptr: SyntaxStablePtrId,
}

impl View for ImplTypeDefId {
    type V = ImplTypeDefId;

    open spec fn view(&self) -> ImplTypeDefId {
        *self
    }
}

impl Key for ImplTypeDefId {
    fn same(&self, other: &Self) -> (res: bool) {
        *self == *other
    }

    fn dup(&self) -> (res: Self) {
        *self
    }
}

impl Id for ImplTypeDefId {
    fn equals(self, other: Self) -> (res: bool) {
        self == other
    }
}

/// An associated constant of an impl.
#[derive(Clone, Copy, PartialEq, Eq, Structural, Debug)]
pub struct ImplConstantDefId {
    /// The impl that holds the item.
    pub impl_def_id: ImplDefId,
    pub name: SmolStrId,
    pub stable_ptr: SyntaxStablePtrId,
}

impl View for ImplConstantDefId {
    type V = ImplConstantDefId;

    open spec fn view(&self) -> ImplConstantDefId {
        *self
    }
}

impl Key for ImplConstantDefId {
    fn same(&self, other: &Self) -> (res: bool) {
        *self == *other
    }

    fn dup(&self) -> (res: Self) {
        *self
    }
}

impl Id for ImplConstantDefId {
    fn equals(self, other: Self) -> (res: bool) {
        self == other
    }
}

/// An associated impl of an impl.
#[derive(Clone, Copy, PartialEq, Eq, Structural, Debug)]
pub struct ImplImplDefId {
    /// The impl that holds the item.
    pub impl_def_id: ImplDefId,
    pub name: SmolStrId,
    pub stable_ptr: SyntaxStablePtrId,
}

impl View for ImplImplDefId {
    type V = ImplImplDefId;

    open spec fn view(&self) -> ImplImplDefId {
        *self
    }
}

impl Key for ImplImplDefId {
    fn same(&self, other: &Self) -> (res: bool) {
        *self == *other
    }

    fn dup(&self) -> (res: Self) {
        *self
    }
}

impl Id for ImplImplDefId {
    fn equals(self, other: Self) -> (res: bool) {
        self == other
    }
}

/// An item of an impl.
#[derive(Clone, Copy, PartialEq, Eq, Structural, Debug)]
pub enum ImplItemId {
    Function(ImplFunctionId),
    Type(ImplTypeDefId),
    Constant(ImplConstantDefId),
    Impl(ImplImplDefId),
}

impl View for ImplItemId {
    type V = ImplItemId;

    open spec fn view(&self) -> ImplItemId {
        *self
    }
}

impl Key for ImplItemId {
    fn same(&self, other: &Self) -> (res: bool) {
        *self == *other
    }

    fn dup(&self) -> (res: Self) {
        *self
    }
}

impl Id for ImplItemId {
    fn equals(self, other: Self) -> (res: bool) {
        self == other
    }
}

/// An interned type.
#[derive(Clone, Copy, PartialEq, Eq, Structural, Debug)]
pub struct TypeId(pub u64);

impl View for TypeId {
    type V = TypeId;

    open spec fn view(&self) -> TypeId {
        *self
    }
}

impl Key for TypeId {
    fn same(&self, other: &Self) -> (res: bool) {
        *self == *other
    }

    fn dup(&self) -> (res: Self) {
        *self
    }
}

impl Id for TypeId {
    fn equals(self, other: Self) -> (res: bool) {
        self == other
    }
}

/// An interned constant value.
#[derive(Clone, Copy, PartialEq, Eq, Structural, Debug)]
pub struct ConstValueId(pub u64);

impl View for ConstValueId {
    type V = ConstValueId;

    open spec fn view(&self) -> ConstValueId {
        *self
    }
}

impl Key for ConstValueId {
    fn same(&self, other: &Self) -> (res: bool) {
        *self == *other
    }

    fn dup(&self) -> (res: Self) {
        *self
    }
}

impl Id for ConstValueId {
    fn equals(self, other: Self) -> (res: bool) {
        self == other
    }
}

/// An interned concrete function.
#[derive(Clone, Copy, PartialEq, Eq, Structural, Debug)]
pub struct FunctionId(pub u64);

impl View for FunctionId {
    type V = FunctionId;

    open spec fn view(&self) -> FunctionId {
        *self
    }
}

impl Key for FunctionId {
    fn same(&self, other: &Self) -> (res: bool) {
        *self == *other
    }

    fn dup(&self) -> (res: Self) {
        *self
    }
}

impl Id for FunctionId {
    fn equals(self, other: Self) -> (res: bool) {
        self == other
    }
}

/// An interned concrete trait.
#[derive(Clone, Copy, PartialEq, Eq, Structural, Debug)]
pub struct ConcreteTraitId(pub u64);

impl View for ConcreteTraitId {
    type V = ConcreteTraitId;

    open spec fn view(&self) -> ConcreteTraitId {
        *self
    }
}

impl Key for ConcreteTraitId {
    fn same(&self, other: &Self) -> (res: bool) {
        *self == *other
    }

    fn dup(&self) -> (res: Self) {
        *self
    }
}

impl Id for ConcreteTraitId {
    fn equals(self, other: Self) -> (res: bool) {
        self == other
    }
}

/// An interned concrete impl.
#[derive(Clone, Copy, PartialEq, Eq, Structural, Debug)]
pub struct ConcreteImplId(pub u64);

impl View for ConcreteImplId {
    type V = ConcreteImplId;

    open spec fn view(&self) -> ConcreteImplId {
        *self
    }
}

impl Key for ConcreteImplId {
    fn same(&self, other: &Self) -> (res: bool) {
        *self == *other
    }

    fn dup(&self) -> (res: Self) {
        *self
    }
}

impl Id for ConcreteImplId {
    fn equals(self, other: Self) -> (res: bool) {
        self == other
    }
}

/// An interned impl.
#[derive(Clone, Copy, PartialEq, Eq, PartialOrd, Ord, Structural, Debug)]
pub struct ImplId(pub u64);

impl View for ImplId {
    type V = ImplId;

    open spec fn view(&self) -> ImplId {
        *self
    }
}

impl Key for ImplId {
    fn same(&self, other: &Self) -> (res: bool) {
        *self == *other
    }

    fn dup(&self) -> (res: Self) {
        *self
    }
}

impl Id for ImplId {
    fn equals(self, other: Self) -> (res: bool) {
        self == other
    }
}

/// An interned impl made by the compiler.
#[derive(Clone, Copy, PartialEq, Eq, Structural, Debug)]
pub struct GeneratedImplId(pub u64);

impl View for GeneratedImplId {
    type V = GeneratedImplId;

    open spec fn view(&self) -> GeneratedImplId {
        *self
    }
}

impl Key for GeneratedImplId {
    fn same(&self, other: &Self) -> (res: bool) {
        *self == *other
    }

    fn dup(&self) -> (res: Self) {
        *self
    }
}

impl Id for GeneratedImplId {
    fn equals(self, other: Self) -> (res: bool) {
        self == other
    }
}

/// An interned impl made by the compiler, before inference.
#[derive(Clone, Copy, PartialEq, Eq, Structural, Debug)]
pub struct UninferredGeneratedImplId(pub u64);

impl View for UninferredGeneratedImplId {
    type V = UninferredGeneratedImplId;

    open spec fn view(&self) -> UninferredGeneratedImplId {
        *self
    }
}

impl Key for UninferredGeneratedImplId {
    fn same(&self, other: &Self) -> (res: bool) {
        *self == *other
    }

    fn dup(&self) -> (res: Self) {
        *self
    }
}

impl Id for UninferredGeneratedImplId {
    fn equals(self, other: Self) -> (res: bool) {
        self == other
    }
}

/// An interned map from associated types to the types that they must be; zero is the empty map.
#[derive(Clone, Copy, PartialEq, Eq, Structural, Debug)]
pub struct TypeConstraints(pub u64);

impl View for TypeConstraints {
    type V = TypeConstraints;

    open spec fn view(&self) -> TypeConstraints {
        *self
    }
}

impl Key for TypeConstraints {
    fn same(&self, other: &Self) -> (res: bool) {
        *self == *other
    }

    fn dup(&self) -> (res: Self) {
        *self
    }
}

impl Id for TypeConstraints {
    fn equals(self, other: Self) -> (res: bool) {
        self == other
    }
}

/// A struct with its generic arguments.
#[derive(Clone, Copy, PartialEq, Eq, Structural, Debug)]
pub struct ConcreteStructId(pub u64);

impl View for ConcreteStructId {
    type V = ConcreteStructId;

    open spec fn view(&self) -> ConcreteStructId {
        *self
    }
}

impl Key for ConcreteStructId {
    fn same(&self, other: &Self) -> (res: bool) {
        *self == *other
    }

    fn dup(&self) -> (res: Self) {
        *self
    }
}

impl Id for ConcreteStructId {
    fn equals(self, other: Self) -> (res: bool) {
        self == other
    }
}

/// An enum with its generic arguments.
#[derive(Clone, Copy, PartialEq, Eq, Structural, Debug)]
pub struct ConcreteEnumId(pub u64);

impl View for ConcreteEnumId {
    type V = ConcreteEnumId;

    open spec fn view(&self) -> ConcreteEnumId {
        *self
    }
}

impl Key for ConcreteEnumId {
    fn same(&self, other: &Self) -> (res: bool) {
        *self == *other
    }

    fn dup(&self) -> (res: Self) {
        *self
    }
}

impl Id for ConcreteEnumId {
    fn equals(self, other: Self) -> (res: bool) {
        self == other
    }
}

/// An external type with its generic arguments.
#[derive(Clone, Copy, PartialEq, Eq, Structural, Debug)]
pub struct ConcreteExternTypeId(pub u64);

impl View for ConcreteExternTypeId {
    type V = ConcreteExternTypeId;

    open spec fn view(&self) -> ConcreteExternTypeId {
        *self
    }
}

impl Key for ConcreteExternTypeId {
    fn same(&self, other: &Self) -> (res: bool) {
        *self == *other
    }

    fn dup(&self) -> (res: Self) {
        *self
    }
}

impl Id for ConcreteExternTypeId {
    fn equals(self, other: Self) -> (res: bool) {
        self == other
    }
}

/// A type variable of inference.
#[derive(Clone, Copy, PartialEq, Eq, Structural, Debug)]
pub struct TypeVarId(pub u64);

impl View for TypeVarId {
    type V = TypeVarId;

    open spec fn view(&self) -> TypeVarId {
        *self
    }
}

impl Key for TypeVarId {
    fn same(&self, other: &Self) -> (res: bool) {
        *self == *other
    }

    fn dup(&self) -> (res: Self) {
        *self
    }
}

impl Id for TypeVarId {
    fn equals(self, other: Self) -> (res: bool) {
        self == other
    }
}

/// What is known of a generic argument before inference: the root of its tree.
#[derive(Clone, Copy, PartialEq, Eq, Structural, Debug)]
pub struct GenericArgumentHead(pub u64);

impl View for GenericArgumentHead {
    type V = GenericArgumentHead;

    open spec fn view(&self) -> GenericArgumentHead {
        *self
    }
}

impl Key for GenericArgumentHead {
    fn same(&self, other: &Self) -> (res: bool) {
        *self == *other
    }

    fn dup(&self) -> (res: Self) {
        *self
    }
}

impl Id for GenericArgumentHead {
    fn equals(self, other: Self) -> (res: bool) {
        self == other
    }
}

/// A structured attribute.
#[derive(Clone, Copy, PartialEq, Eq, Structural, Debug)]
pub struct Attribute(pub u64);

impl View for Attribute {
    type V = Attribute;

    open spec fn view(&self) -> Attribute {
        *self
    }
}

impl Key for Attribute {
    fn same(&self, other: &Self) -> (res: bool) {
        *self == *other
    }

    fn dup(&self) -> (res: Self) {
        *self
    }
}

impl Id for Attribute {
    fn equals(self, other: Self) -> (res: bool) {
        self == other
    }
}

/// A failure of inference other than those told apart here.
#[derive(Clone, Copy, PartialEq, Eq, Structural, Debug)]
pub struct InferenceErrorId(pub u64);

impl View for InferenceErrorId {
    type V = InferenceErrorId;

    open spec fn view(&self) -> InferenceErrorId {
        *self
    }
}

impl Key for InferenceErrorId {
    fn same(&self, other: &Self) -> (res: bool) {
        *self == *other
    }

    fn dup(&self) -> (res: Self) {
        *self
    }
}

impl Id for InferenceErrorId {
    fn equals(self, other: Self) -> (res: bool) {
        self == other
    }
}

} // verus!
