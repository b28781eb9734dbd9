//! The syntax of impls, as far as the analysis reads it.

use vstd::prelude::*;

use crate::collections::{Id, Key};
use crate::diagnostics::OutsideDiagnostic;
use crate::ids::{Attribute, SmolStrId, SyntaxStablePtrId};

verus! {

/// The feature that an item belongs to.
#[derive(Clone, Copy, PartialEq, Eq, Structural, Debug)]
pub struct FeatureKind(pub u64);

impl View for FeatureKind {
    type V = FeatureKind;

    open spec fn view(&self) -> FeatureKind {
        *self
    }
}

impl Key for FeatureKind {
    fn same(&self, other: &Self) -> (res: bool) {
        *self == *other
    }

    fn dup(&self) -> (res: Self) {
        *self
    }
}

impl Id for FeatureKind {
    fn equals(self, other: Self) -> (res: bool) {
        self == other
    }
}


/// The keyword that opens an item.
#[derive(Clone, Copy, PartialEq, Eq, Structural, Debug)]
pub struct Keyword {
    pub stable_ptr: SyntaxStablePtrId,
    pub text: SmolStrId,
}

impl View for Keyword {
    type V = Keyword;

    open spec fn view(&self) -> Keyword {
        *self
    }
}

impl Key for Keyword {
    fn same(&self, other: &Self) -> (res: bool) {
        *self == *other
    }

    fn dup(&self) -> (res: Self) {
        *self
    }
}

impl Id for Keyword {
    fn equals(self, other: Self) -> (res: bool) {
        self == other
    }
}


/// A function with its body.
#[derive(Clone, Copy, PartialEq, Eq, Structural, Debug)]
pub struct FunctionWithBody {
    pub stable_ptr: SyntaxStablePtrId,
    pub name: SmolStrId,
    pub name_ptr: SyntaxStablePtrId,
    pub signature_ptr: SyntaxStablePtrId,
    pub parameters_ptr: SyntaxStablePtrId,
    /// The return type, where one is written.
    pub ret_ty_ptr: Option<SyntaxStablePtrId>,
    /// The brace that opens the body.
    pub lbrace_ptr: SyntaxStablePtrId,
}

impl View for FunctionWithBody {
    type V = FunctionWithBody;

    open spec fn view(&self) -> FunctionWithBody {
        *self
    }
}

impl Key for FunctionWithBody {
    fn same(&self, other: &Self) -> (res: bool) {
        *self == *other
    }

    fn dup(&self) -> (res: Self) {
        *self
    }
}

impl Id for FunctionWithBody {
    fn equals(self, other: Self) -> (res: bool) {
        self == other
    }
}


/// A type alias.
#[derive(Clone, Copy, PartialEq, Eq, Structural, Debug)]
pub struct ItemTypeAlias {
    pub stable_ptr: SyntaxStablePtrId,
    pub name: SmolStrId,
    pub name_ptr: SyntaxStablePtrId,
    pub generic_params_ptr: SyntaxStablePtrId,
    pub has_generic_params: bool,
}

impl View for ItemTypeAlias {
    type V = ItemTypeAlias;

    open spec fn view(&self) -> ItemTypeAlias {
        *self
    }
}

impl Key for ItemTypeAlias {
    fn same(&self, other: &Self) -> (res: bool) {
        *self == *other
    }

    fn dup(&self) -> (res: Self) {
        *self
    }
}

impl Id for ItemTypeAlias {
    fn equals(self, other: Self) -> (res: bool) {
        self == other
    }
}


/// A constant.
#[derive(Clone, Copy, PartialEq, Eq, Structural, Debug)]
pub struct ItemConstant {
    pub stable_ptr: SyntaxStablePtrId,
    pub name: SmolStrId,
    pub name_ptr: SyntaxStablePtrId,
    pub type_clause_ptr: SyntaxStablePtrId,
}

impl View for ItemConstant {
    type V = ItemConstant;

    open spec fn view(&self) -> ItemConstant {
        *self
    }
}

impl Key for ItemConstant {
    fn same(&self, other: &Self) -> (res: bool) {
        *self == *other
    }

    fn dup(&self) -> (res: Self) {
        *self
    }
}

impl Id for ItemConstant {
    fn equals(self, other: Self) -> (res: bool) {
        self == other
    }
}


/// An impl alias.
#[derive(Clone, Copy, PartialEq, Eq, Structural, Debug)]
pub struct ItemImplAlias {
    pub stable_ptr: SyntaxStablePtrId,
    pub name: SmolStrId,
    pub name_ptr: SyntaxStablePtrId,
    pub generic_params_ptr: SyntaxStablePtrId,
    pub has_generic_params: bool,
}

impl View for ItemImplAlias {
    type V = ItemImplAlias;

    open spec fn view(&self) -> ItemImplAlias {
        *self
    }
}

impl Key for ItemImplAlias {
    fn same(&self, other: &Self) -> (res: bool) {
        *self == *other
    }

    fn dup(&self) -> (res: Self) {
        *self
    }
}

impl Id for ItemImplAlias {
    fn equals(self, other: Self) -> (res: bool) {
        self == other
    }
}


/// The feature that the attributes of an item declare, and what is wrong with them.
pub struct ItemFeature {
    pub kind: FeatureKind,
    pub diagnostics: Vec<OutsideDiagnostic>,
}

/// An item in the body of an impl.
pub enum ImplItem {
    Module(Keyword),
    Use(Keyword),
    ExternFunction(Keyword),
    ExternType(Keyword),
    Trait(Keyword),
    Struct(Keyword),
    Enum(Keyword),
    Function(FunctionWithBody, ItemFeature),
    Type(ItemTypeAlias, ItemFeature),
    Constant(ItemConstant, ItemFeature),
    Impl(ItemImplAlias, ItemFeature),
    /// Text that is no item.
    Missing,
}

/// An impl.
pub struct ItemImpl {
    pub stable_ptr: SyntaxStablePtrId,
    pub name_ptr: SyntaxStablePtrId,
    pub trait_path_ptr: SyntaxStablePtrId,
    pub attributes: Vec<Attribute>,
    /// The items, where the impl has a body.
    pub body: Option<Vec<ImplItem>>,
}

} // verus!
