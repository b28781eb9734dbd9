//! The definition of an impl: the items in its body.

use vstd::prelude::*;

use crate::collections::{
    assoc_insert, copy_ids, has_key, lemma_filter_members, lookup, unique_keys, OrderedHashMap,
    OrderedHashSet,
};
use crate::context::{ContextView, ImplLookupContext, ImplOrModuleById};
use crate::db::{SemanticFacts, SemanticGroup};
use crate::declaration::{impl_def_concrete_trait, impl_def_generic_params};
use crate::diagnostics::{
    diagnostic, outside_view, skip_diagnostic, Ambiguity, DiagnosticAdded, DiagnosticView,
    Diagnostics, InferenceError, KindView, Maybe, SemanticDiagnostic, SemanticDiagnosticKind,
    SemanticDiagnostics,
};
use crate::facts::TypeInfo;
use crate::ids::{
    ConcreteTraitId, GenericParamId, ImplConstantDefId, ImplDefId, ImplFunctionId, ImplImplDefId,
    ImplItemId, ImplTypeDefId, ModuleId, SmolStrId, SyntaxStablePtrId, TraitImplId, TypeId,
};
use crate::model::{ConcreteTypeId, GenericArgumentId, GenericParam, TypeLongId};
use crate::syntax::{
    FeatureKind, FunctionWithBody, ImplItem, ItemConstant, ItemFeature, ItemImpl, ItemImplAlias,
    ItemTypeAlias, Keyword,
};

verus! {

/// Stores metadata for an impl item: its id and its feature kind.
#[derive(Clone, Copy, PartialEq, Eq, Structural, Debug)]
pub struct ImplItemInfo {
    /// The unique identifier of the impl item.
    pub id: ImplItemId,
    /// The feature kind associated with this impl item.
    pub feature_kind: FeatureKind,
}

impl ImplItemInfo {
    /// The feature kind of this impl item.
    pub fn feature_kind(&self) -> (res: &FeatureKind)
        ensures
            *res == self.feature_kind,
    {
        &self.feature_kind
    }
}

/// What is known of an impl from its body.
pub struct ImplDefinitionData {
    /// The diagnostics found on the impl level itself, without those of its items: computing the
    /// latter asks about the impl.
    pub diagnostics: Diagnostics,
    pub function_asts: OrderedHashMap<ImplFunctionId, FunctionWithBody>,
    pub item_type_asts: OrderedHashMap<ImplTypeDefId, ItemTypeAlias>,
    pub item_constant_asts: OrderedHashMap<ImplConstantDefId, ItemConstant>,
    pub item_impl_asts: OrderedHashMap<ImplImplDefId, ItemImplAlias>,
    /// Mapping of item names to their meta data info. All the IDs appear in one of the AST maps
    /// above.
    pub item_id_by_name: OrderedHashMap<SmolStrId, ImplItemInfo>,
    /// Mapping of the names of impls that the body lacks to the trait impls.
    pub implicit_impls_id_by_name: OrderedHashMap<SmolStrId, TraitImplId>,
}

/// The items of an impl body, with their tables as sequences.
#[verifier::ext_equal]
pub struct ItemsView {
    pub diagnostics: Seq<DiagnosticView>,
    pub functions: Seq<(ImplFunctionId, FunctionWithBody)>,
    pub types: Seq<(ImplTypeDefId, ItemTypeAlias)>,
    pub constants: Seq<(ImplConstantDefId, ItemConstant)>,
    pub impls: Seq<(ImplImplDefId, ItemImplAlias)>,
    pub by_name: Seq<(SmolStrId, ImplItemInfo)>,
}

/// No items.
pub open spec fn no_items() -> ItemsView {
    ItemsView {
        diagnostics: seq![],
        functions: seq![],
        types: seq![],
        constants: seq![],
        impls: seq![],
        by_name: seq![],
    }
}

impl ItemsView {
    /// With a keyword that opens no item of an impl.
    pub open spec fn with_invalid(self, kw: Keyword) -> ItemsView {
        ItemsView {
            diagnostics: self.diagnostics.push(
                diagnostic(kw.stable_ptr, SemanticDiagnosticKind::InvalidImplItem(kw.text)),
            ),
            ..self
        }
    }

    /// With a name given to an item.
    pub open spec fn with_name(
        self,
        name: SmolStrId,
        name_ptr: SyntaxStablePtrId,
        id: ImplItemId,
        feature: ItemFeature,
    ) -> ItemsView {
        let diagnostics = self.diagnostics + outside_view(feature.diagnostics@);
        ItemsView {
            diagnostics: if has_key(self.by_name, name) {
                diagnostics.push(
                    diagnostic(name_ptr, SemanticDiagnosticKind::NameDefinedMultipleTimes(name)),
                )
            } else {
                diagnostics
            },
            by_name: assoc_insert(
                self.by_name,
                name,
                ImplItemInfo { id, feature_kind: feature.kind },
            ),
            ..self
        }
    }

    /// With one more item of the body of an impl.
    pub open spec fn with_item(self, impl_def_id: ImplDefId, item: ImplItem) -> ItemsView {
        match item {
            ImplItem::Module(kw) => self.with_invalid(kw),
            ImplItem::Use(kw) => self.with_invalid(kw),
            ImplItem::ExternFunction(kw) => self.with_invalid(kw),
            ImplItem::ExternType(kw) => self.with_invalid(kw),
            ImplItem::Trait(kw) => self.with_invalid(kw),
            ImplItem::Struct(kw) => self.with_invalid(kw),
            ImplItem::Enum(kw) => self.with_invalid(kw),
            ImplItem::Function(ast, feature) => {
                let id = ImplFunctionId {
                    impl_def_id,
                    name: ast.name,
                    stable_ptr: ast.stable_ptr,
                };
                ItemsView {
                    functions: assoc_insert(self.functions, id, ast),
                    ..self.with_name(ast.name, ast.name_ptr, ImplItemId::Function(id), feature)
                }
            },
            ImplItem::Type(ast, feature) => {
                let id = ImplTypeDefId { impl_def_id, name: ast.name, stable_ptr: ast.stable_ptr };
                ItemsView {
                    types: assoc_insert(self.types, id, ast),
                    ..self.with_name(ast.name, ast.name_ptr, ImplItemId::Type(id), feature)
                }
            },
            ImplItem::Constant(ast, feature) => {
                let id = ImplConstantDefId {
                    impl_def_id,
                    name: ast.name,
                    stable_ptr: ast.stable_ptr,
                };
                ItemsView {
                    constants: assoc_insert(self.constants, id, ast),
                    ..self.with_name(ast.name, ast.name_ptr, ImplItemId::Constant(id), feature)
                }
            },
            ImplItem::Impl(ast, feature) => {
                let id = ImplImplDefId { impl_def_id, name: ast.name, stable_ptr: ast.stable_ptr };
                ItemsView {
                    impls: assoc_insert(self.impls, id, ast),
                    ..self.with_name(ast.name, ast.name_ptr, ImplItemId::Impl(id), feature)
                }
            },
            ImplItem::Missing => self,
        }
    }
}

/// The items of a body.
pub open spec fn items_of(impl_def_id: ImplDefId, items: Seq<ImplItem>) -> ItemsView
    decreases items.len(),
{
    if items.len() == 0 {
        no_items()
    } else {
        items_of(impl_def_id, items.drop_last()).with_item(impl_def_id, items.last())
    }
}

/// The items of an impl; an impl without a body has none.
pub open spec fn impl_items(impl_def_id: ImplDefId, ast: ItemImpl) -> ItemsView {
    match ast.body {
        Some(items) => items_of(impl_def_id, items@),
        None => no_items(),
    }
}

/// The ids of generic parameters.
pub open spec fn param_ids(params: Seq<GenericParam>) -> Seq<GenericParamId> {
    Seq::new(params.len(), |i: int| params[i].spec_id())
}

pub fn generic_params_ids(params: &Vec<GenericParam>) -> (res: Vec<GenericParamId>)
    ensures
        res@ == param_ids(params@),
{
    let mut res: Vec<GenericParamId> = Vec::new();
    let mut i: usize = 0;
    while i < params.len()
        invariant
            i <= params.len(),
            res@ =~= param_ids(params@).take(i as int),
        decreases params.len() - i,
    {
        res.push(params[i].id());
        i += 1;
    }
    assert(res@ =~= param_ids(params@));
    res
}

/// The lookup context of a module with generic parameters.
pub open spec fn module_context(module_id: ModuleId, params: Seq<GenericParamId>) -> ContextView {
    ContextView {
        modules_and_impls: seq![ImplOrModuleById::Module(module_id)],
        generic_params: params,
    }
}

// --- Copy and Drop ---

/// Whether a type is resolved as far as the inner types have to be known.
pub open spec fn has_inner_types(db: SemanticGroup, ty: TypeId) -> bool {
    !(db.spec_type_long(ty) is Var) && !(db.spec_type_long(ty) is ImplType)
}

/// The types that have to implement a trait for a type to implement it.
pub open spec fn inner_types(db: SemanticGroup, ty: TypeId) -> Maybe<Seq<TypeId>> {
    match db.spec_type_long(ty) {
        TypeLongId::Concrete(ConcreteTypeId::Struct(id)) => match lookup(
            db.facts.struct_members@,
            id,
        ) {
            Some(Ok(types)) => Ok(types@),
            _ => Err(DiagnosticAdded),
        },
        TypeLongId::Concrete(ConcreteTypeId::Enum(id)) => match lookup(
            db.facts.enum_variants@,
            id,
        ) {
            Some(Ok(types)) => Ok(types@),
            _ => Err(DiagnosticAdded),
        },
        TypeLongId::Concrete(ConcreteTypeId::Extern(_)) => Ok(seq![]),
        TypeLongId::Tuple(types) => Ok(types),
        TypeLongId::Snapshot(_) => Ok(seq![]),
        TypeLongId::Closure(_) => Ok(seq![]),
        TypeLongId::Coupon(_) => Ok(seq![]),
        TypeLongId::FixedSizeArray { type_id, size } => Ok(seq![type_id]),
        _ => Err(DiagnosticAdded),
    }
}

/// Retrieves all the inner types (members of a struct / tuple or variants of an enum).
///
/// These are the types that are required to implement some trait,
/// in order for the original type to be able to implement this trait.
///
/// For example, a struct containing a type T can implement Drop only if T implements Drop.
pub fn get_inner_types(db: &SemanticGroup, ty: TypeId) -> (res: Maybe<Vec<TypeId>>)
    requires
        db.wf(),
        db.has_type(ty),
        has_inner_types(*db, ty),
    ensures
        match res {
            Ok(types) => inner_types(*db, ty) == Ok::<_, DiagnosticAdded>(types@),
            Err(_) => inner_types(*db, ty) is Err,
        },
{
    match db.type_long(ty) {
        TypeLongId::Concrete(ConcreteTypeId::Struct(id)) => match db.facts.struct_members.get(id) {
            Some(Ok(types)) => Ok(copy_ids(types)),
            _ => Err(skip_diagnostic()),
        },
        TypeLongId::Concrete(ConcreteTypeId::Enum(id)) => match db.facts.enum_variants.get(id) {
            Some(Ok(types)) => Ok(copy_ids(types)),
            _ => Err(skip_diagnostic()),
        },
        TypeLongId::Tuple(types) => Ok(copy_ids(types)),
        TypeLongId::Concrete(ConcreteTypeId::Extern(_))
        | TypeLongId::Snapshot(_)
        | TypeLongId::Closure(_)
        | TypeLongId::Coupon(_) => Ok(Vec::new()),
        TypeLongId::FixedSizeArray { type_id, size: _ } => {
            let mut types: Vec<TypeId> = Vec::new();
            types.push(*type_id);
            assert(types@ =~= seq![*type_id]);
            Ok(types)
        },
        TypeLongId::Missing(diag_added) => Err(*diag_added),
        _ => Err(skip_diagnostic()),
    }
}

/// Why a member keeps a type from being copied, or dropped; that a member can be in several ways
/// is no reason.
pub open spec fn obstacle(info: TypeInfo, copying: bool) -> Option<InferenceError> {
    match if copying {
        info.copyable
    } else {
        info.droppable
    } {
        Err(InferenceError::Ambiguity(Ambiguity::MultipleImplsFound(_))) => None,
        Err(e) => Some(e),
        Ok(_) => None,
    }
}

/// The first obstacle from the `i`-th type on.
pub open spec fn first_obstacle(
    facts: SemanticFacts,
    context: ContextView,
    types: Seq<TypeId>,
    i: int,
    copying: bool,
) -> Option<InferenceError>
    decreases types.len() - i,
{
    if i < 0 || i >= types.len() {
        None
    } else {
        match obstacle(facts.spec_type_info(context, types[i]), copying) {
            Some(e) => Some(e),
            None => first_obstacle(facts, context, types, i + 1, copying),
        }
    }
}

/// The obstacles to copying, or dropping, a type: nothing to say where the inner types are
/// unknown.
pub open spec fn members_check(
    db: SemanticGroup,
    context: ContextView,
    ty: TypeId,
    copying: bool,
) -> Result<(), Option<InferenceError>> {
    match inner_types(db, ty) {
        Err(_) => Err(None),
        Ok(types) => match first_obstacle(db.facts, context, types, 0, copying) {
            Some(e) => Err(Some(e)),
            None => Ok(()),
        },
    }
}

/// The type that the first generic argument of a trait is.
pub open spec fn first_type_arg(db: SemanticGroup, concrete_trait: ConcreteTraitId) -> TypeId {
    db.spec_trait_long(concrete_trait).generic_args[0]->Type_0
}

/// Whether an impl of `Copy` or `Drop` is for a resolved type.
pub open spec fn special_impl_resolved(db: SemanticGroup, concrete_trait: ConcreteTraitId) -> bool {
    let long = db.spec_trait_long(concrete_trait);
    long.trait_id == db.facts.core.copy_trt || long.trait_id == db.facts.core.drop_trt ==> {
        &&& long.generic_args.len() > 0
        &&& long.generic_args[0] is Type
        &&& has_inner_types(db, first_type_arg(db, concrete_trait))
    }
}

/// What keeps an impl of `Copy` or `Drop` from being valid.
pub open spec fn special_impl_check(
    db: SemanticGroup,
    context: ContextView,
    concrete_trait: ConcreteTraitId,
) -> Result<(), Option<KindView>> {
    let trait_id = db.spec_trait_long(concrete_trait).trait_id;
    let ty = first_type_arg(db, concrete_trait);
    let copied = if trait_id == db.facts.core.copy_trt {
        members_check(db, context, ty, true)
    } else {
        Ok(())
    };
    let dropped = if trait_id == db.facts.core.drop_trt {
        members_check(db, context, ty, false)
    } else {
        Ok(())
    };
    match (copied, dropped) {
        (Err(None), _) => Err(None),
        (Err(Some(e)), _) => Err(Some(SemanticDiagnosticKind::InvalidCopyTraitImpl(e))),
        (Ok(_), Err(None)) => Err(None),
        (Ok(_), Err(Some(e))) => Err(Some(SemanticDiagnosticKind::InvalidDropTraitImpl(e))),
        (Ok(_), Ok(_)) => Ok(()),
    }
}

/// What is reported of an impl of `Copy` or `Drop`.
pub open spec fn special_impl_diagnostics(
    db: SemanticGroup,
    context: ContextView,
    concrete_trait: ConcreteTraitId,
    stable_ptr: SyntaxStablePtrId,
) -> Seq<DiagnosticView> {
    match special_impl_check(db, context, concrete_trait) {
        Err(Some(kind)) => seq![diagnostic(stable_ptr, kind)],
        _ => seq![],
    }
}

/// Finds the first obstacle to copying, or dropping, some types.
fn find_obstacle(
    db: &SemanticGroup,
    lookup_context: &ImplLookupContext,
    types: &Vec<TypeId>,
    copying: bool,
) -> (res: Option<InferenceError>)
    ensures
        res == first_obstacle(db.facts, lookup_context@, types@, 0, copying),
{
    let mut i: usize = 0;
    while i < types.len()
        invariant
            i <= types.len(),
            first_obstacle(db.facts, lookup_context@, types@, i as int, copying) == first_obstacle(
                db.facts,
                lookup_context@,
                types@,
                0,
                copying,
            ),
        decreases types.len() - i,
    {
        let info = db.type_info(lookup_context, types[i]);
        let outcome = if copying {
            info.copyable
        } else {
            info.droppable
        };
        match outcome {
            // Having multiple implementations for a member is not an actual error.
            Err(InferenceError::Ambiguity(Ambiguity::MultipleImplsFound(_))) => {},
            Err(e) => return Some(e),
            Ok(_) => {},
        }
        i += 1;
    }
    None
}

/// Handle special cases such as Copy and Drop checking.
pub fn check_special_impls(
    db: &SemanticGroup,
    diagnostics: &mut SemanticDiagnostics,
    lookup_context: ImplLookupContext,
    concrete_trait: ConcreteTraitId,
    stable_ptr: SyntaxStablePtrId,
) -> (res: Maybe<()>)
    requires
        db.wf(),
        db.has_trait(concrete_trait),
        special_impl_resolved(*db, concrete_trait),
    ensures
        res is Ok <==> special_impl_check(*db, lookup_context@, concrete_trait) is Ok,
        final(diagnostics)@ == old(diagnostics)@ + special_impl_diagnostics(
            *db,
            lookup_context@,
            concrete_trait,
            stable_ptr,
        ),
{
    let ghost before = diagnostics@;
    let long = db.trait_long(concrete_trait);
    let info = db.facts.core;
    assert(before + Seq::<DiagnosticView>::empty() =~= before);
    proof {
        assert(db.interned@.wf());
        assert(db.sizes().has_args(db.spec_trait_long(concrete_trait).generic_args));
    }
    if long.trait_id == info.copy_trt {
        if let GenericArgumentId::Type(ty) = long.generic_args[0] {
            let tys = match get_inner_types(db, ty) {
                Ok(tys) => tys,
                Err(e) => return Err(e),
            };
            if let Some(inference_error) = find_obstacle(db, &lookup_context, &tys, true) {
                let added = diagnostics.report(
                    stable_ptr,
                    SemanticDiagnosticKind::InvalidCopyTraitImpl(inference_error),
                );
                assert(diagnostics@ =~= before + special_impl_diagnostics(
                    *db,
                    lookup_context@,
                    concrete_trait,
                    stable_ptr,
                ));
                return Err(added);
            }
        }
    }
    if long.trait_id == info.drop_trt {
        if let GenericArgumentId::Type(ty) = long.generic_args[0] {
            let tys = match get_inner_types(db, ty) {
                Ok(tys) => tys,
                Err(e) => return Err(e),
            };
            if let Some(inference_error) = find_obstacle(db, &lookup_context, &tys, false) {
                let added = diagnostics.report(
                    stable_ptr,
                    SemanticDiagnosticKind::InvalidDropTraitImpl(inference_error),
                );
                assert(diagnostics@ =~= before + special_impl_diagnostics(
                    *db,
                    lookup_context@,
                    concrete_trait,
                    stable_ptr,
                ));
                return Err(added);
            }
        }
    }
    Ok(())
}

// --- Items ---

/// Reports a keyword that opens no item of an impl.
pub fn report_invalid_impl_item(diagnostics: &mut SemanticDiagnostics, kw: &Keyword)
    ensures
        final(diagnostics)@ == old(diagnostics)@.push(
            diagnostic(kw.stable_ptr, SemanticDiagnosticKind::InvalidImplItem(kw.text)),
        ),
{
    diagnostics.report(kw.stable_ptr, SemanticDiagnosticKind::InvalidImplItem(kw.text));
}

/// The items of a body, as far as they are read.
struct ImplItems {
    diagnostics: SemanticDiagnostics,
    function_asts: OrderedHashMap<ImplFunctionId, FunctionWithBody>,
    item_type_asts: OrderedHashMap<ImplTypeDefId, ItemTypeAlias>,
    item_constant_asts: OrderedHashMap<ImplConstantDefId, ItemConstant>,
    item_impl_asts: OrderedHashMap<ImplImplDefId, ItemImplAlias>,
    item_id_by_name: OrderedHashMap<SmolStrId, ImplItemInfo>,
}

impl View for ImplItems {
    type V = ItemsView;

    closed spec fn view(&self) -> ItemsView {
        ItemsView {
            diagnostics: self.diagnostics@,
            functions: self.function_asts@,
            types: self.item_type_asts@,
            constants: self.item_constant_asts@,
            impls: self.item_impl_asts@,
            by_name: self.item_id_by_name@,
        }
    }
}

impl ImplItems {
    fn new() -> (res: Self)
        ensures
            res@ == no_items(),
    {
        ImplItems {
            diagnostics: SemanticDiagnostics::new(),
            function_asts: OrderedHashMap::new(),
            item_type_asts: OrderedHashMap::new(),
            item_constant_asts: OrderedHashMap::new(),
            item_impl_asts: OrderedHashMap::new(),
            item_id_by_name: OrderedHashMap::new(),
        }
    }

    /// Reports a keyword that opens no item of an impl.
    fn add_invalid(&mut self, kw: &Keyword)
        ensures
            final(self)@ == old(self)@.with_invalid(*kw),
    {
        report_invalid_impl_item(&mut self.diagnostics, kw);
    }

    /// Gives a name to an item.
    fn add_name(
        &mut self,
        name: SmolStrId,
        name_ptr: SyntaxStablePtrId,
        id: ImplItemId,
        feature: &ItemFeature,
    )
        ensures
            final(self)@ == old(self)@.with_name(name, name_ptr, id, *feature),
    {
        self.diagnostics.extend_outside(&feature.diagnostics);
        let info = ImplItemInfo { id, feature_kind: feature.kind };
        if self.item_id_by_name.insert(name, info) {
            self.diagnostics.report(
                name_ptr,
                SemanticDiagnosticKind::NameDefinedMultipleTimes(name),
            );
        }
    }

    /// Adds one item of the body.
    fn add_item(&mut self, impl_def_id: ImplDefId, item: &ImplItem)
        ensures
            final(self)@ == old(self)@.with_item(impl_def_id, *item),
    {
        match item {
            ImplItem::Module(kw) => self.add_invalid(kw),
            ImplItem::Use(kw) => self.add_invalid(kw),
            ImplItem::ExternFunction(kw) => self.add_invalid(kw),
            ImplItem::ExternType(kw) => self.add_invalid(kw),
            ImplItem::Trait(kw) => self.add_invalid(kw),
            ImplItem::Struct(kw) => self.add_invalid(kw),
            ImplItem::Enum(kw) => self.add_invalid(kw),
            ImplItem::Function(func, feature) => {
                let id = ImplFunctionId {
                    impl_def_id,
                    name: func.name,
                    stable_ptr: func.stable_ptr,
                };
                self.add_name(func.name, func.name_ptr, ImplItemId::Function(id), feature);
                self.function_asts.insert(id, *func);
            },
            ImplItem::Type(ty, feature) => {
                let id = ImplTypeDefId { impl_def_id, name: ty.name, stable_ptr: ty.stable_ptr };
                self.add_name(ty.name, ty.name_ptr, ImplItemId::Type(id), feature);
                self.item_type_asts.insert(id, *ty);
            },
            ImplItem::Constant(constant, feature) => {
                let id = ImplConstantDefId {
                    impl_def_id,
                    name: constant.name,
                    stable_ptr: constant.stable_ptr,
                };
                self.add_name(constant.name, constant.name_ptr, ImplItemId::Constant(id), feature);
                self.item_constant_asts.insert(id, *constant);
            },
            ImplItem::Impl(imp, feature) => {
                let id = ImplImplDefId { impl_def_id, name: imp.name, stable_ptr: imp.stable_ptr };
                self.add_name(imp.name, imp.name_ptr, ImplItemId::Impl(id), feature);
                self.item_impl_asts.insert(id, *imp);
            },
            // Report nothing, a parser diagnostic is reported.
            ImplItem::Missing => {},
        }
    }

    /// Reads the body of an impl.
    fn read(impl_def_id: ImplDefId, ast: &ItemImpl) -> (res: Self)
        ensures
            res@ == impl_items(impl_def_id, *ast),
    {
        let mut res = ImplItems::new();
        if let Some(items) = &ast.body {
            let mut i: usize = 0;
            assert(items@.take(0) =~= Seq::empty());
            while i < items.len()
                invariant
                    i <= items.len(),
                    res@ == items_of(impl_def_id, items@.take(i as int)),
                decreases items.len() - i,
            {
                assert(items@.take(i + 1).drop_last() =~= items@.take(i as int));
                res.add_item(impl_def_id, &items[i]);
                i += 1;
            }
            assert(items@.take(items@.len() as int) =~= items@);
        }
        res
    }
}

// --- The definition data ---

/// The definition data of an impl, with its tables as sequences.
#[verifier::ext_equal]
pub struct DefinitionView {
    pub diagnostics: Seq<DiagnosticView>,
    pub functions: Seq<(ImplFunctionId, FunctionWithBody)>,
    pub types: Seq<(ImplTypeDefId, ItemTypeAlias)>,
    pub constants: Seq<(ImplConstantDefId, ItemConstant)>,
    pub impls: Seq<(ImplImplDefId, ItemImplAlias)>,
    pub by_name: Seq<(SmolStrId, ImplItemInfo)>,
    pub implicit_impls: Seq<(SmolStrId, TraitImplId)>,
}

impl View for ImplDefinitionData {
    type V = DefinitionView;

    open spec fn view(&self) -> DefinitionView {
        DefinitionView {
            diagnostics: self.diagnostics@,
            functions: self.function_asts@,
            types: self.item_type_asts@,
            constants: self.item_constant_asts@,
            impls: self.item_impl_asts@,
            by_name: self.item_id_by_name@,
            implicit_impls: self.implicit_impls_id_by_name@,
        }
    }
}

impl ImplDefinitionData {
    /// Retrieves impl item information by its name.
    pub fn get_impl_item_info(&self, item_name: SmolStrId) -> (res: Option<ImplItemInfo>)
        ensures
            res == lookup(self@.by_name, item_name),
    {
        match self.item_id_by_name.get(&item_name) {
            Some(info) => Some(*info),
            None => None,
        }
    }
}

/// The trait impls that no item has the name of.
pub open spec fn unnamed_impls(
    trait_impls: Seq<(SmolStrId, TraitImplId)>,
    by_name: Seq<(SmolStrId, ImplItemInfo)>,
) -> Seq<(SmolStrId, TraitImplId)> {
    trait_impls.filter(|e: (SmolStrId, TraitImplId)| !has_key(by_name, e.0))
}

/// The required names that no item has.
pub open spec fn missing_names(
    required: Seq<SmolStrId>,
    by_name: Seq<(SmolStrId, ImplItemInfo)>,
) -> Seq<SmolStrId> {
    required.filter(|name: SmolStrId| !has_key(by_name, name))
}

/// What is reported of the required names that no item has.
pub open spec fn missing_diagnostics(
    required: Seq<SmolStrId>,
    by_name: Seq<(SmolStrId, ImplItemInfo)>,
    name_ptr: SyntaxStablePtrId,
) -> Seq<DiagnosticView> {
    let missing = missing_names(required, by_name);
    if missing.len() > 0 {
        seq![diagnostic(name_ptr, SemanticDiagnosticKind::MissingItemsInImpl(missing))]
    } else {
        seq![]
    }
}

impl SemanticGroup {
    /// Whether an impl of `Copy` or `Drop` is for a resolved type.
    pub open spec fn definable(self, impl_def_id: ImplDefId) -> bool {
        self.spec_impl_def_concrete_trait(impl_def_id) matches Ok(id) ==> special_impl_resolved(
            self,
            id,
        )
    }

    /// The lookup context of an impl.
    pub open spec fn spec_impl_def_context(self, impl_def_id: ImplDefId) -> ContextView {
        module_context(
            impl_def_id.module_file_id.0,
            param_ids(self.spec_impl_def_generic_params(impl_def_id)->Ok_0),
        )
    }

    /// The definition data of an impl of a trait.
    pub open spec fn spec_definition_for(
        self,
        impl_def_id: ImplDefId,
        concrete_trait: ConcreteTraitId,
        trait_impls: Seq<(SmolStrId, TraitImplId)>,
        required: Seq<SmolStrId>,
    ) -> DefinitionView {
        let ast = self.spec_impl_ast(impl_def_id)->Ok_0;
        let items = impl_items(impl_def_id, ast);
        DefinitionView {
            diagnostics: special_impl_diagnostics(
                self,
                self.spec_impl_def_context(impl_def_id),
                concrete_trait,
                ast.stable_ptr,
            ) + items.diagnostics + missing_diagnostics(required, items.by_name, ast.name_ptr),
            functions: items.functions,
            types: items.types,
            constants: items.constants,
            impls: items.impls,
            by_name: items.by_name,
            implicit_impls: unnamed_impls(trait_impls, items.by_name),
        }
    }

    /// The definition data of an impl; there is none where the trait is not known.
    pub open spec fn spec_definition(self, impl_def_id: ImplDefId) -> Maybe<DefinitionView> {
        match self.spec_impl_def_concrete_trait(impl_def_id) {
            Ok(concrete_trait) => {
                let trait_id = self.spec_trait_long(concrete_trait).trait_id;
                match (
                    self.spec_trait_impls(trait_id),
                    self.spec_trait_required_item_names(trait_id),
                ) {
                    (Ok(trait_impls), Ok(required)) => Ok(
                        self.spec_definition_for(
                            impl_def_id,
                            concrete_trait,
                            trait_impls,
                            required,
                        ),
                    ),
                    _ => Err(DiagnosticAdded),
                }
            },
            Err(e) => Err(e),
        }
    }
}

/// What is known of an impl stays as more values are interned.
pub proof fn lemma_definition_grown(
    before: SemanticGroup,
    after: SemanticGroup,
    impl_def_id: ImplDefId,
)
    requires
        before.wf(),
        after.grown_from(before),
    ensures
        before.sizes().has_maybe_trait(before.spec_impl_def_concrete_trait(impl_def_id)),
        after.spec_impl_def_concrete_trait(impl_def_id) == before.spec_impl_def_concrete_trait(
            impl_def_id,
        ),
        before.spec_impl_def_concrete_trait(impl_def_id) matches Ok(t) ==> after.spec_trait_long(t)
            == before.spec_trait_long(t),
        before.definable(impl_def_id) ==> after.definable(impl_def_id),
        before.definable(impl_def_id) ==> after.spec_definition(impl_def_id)
            == before.spec_definition(impl_def_id),
{
    reveal(crate::db::SemanticFacts::valid);
    if let Ok(t) = before.spec_impl_def_concrete_trait(impl_def_id) {
        let f = lookup(before.facts.impl_defs@, impl_def_id)->0;
        assert(f.valid(before.sizes()));
        f.declaration.inference.lemma_rewrite_valid(before.sizes());
        assert(before.has_trait(t));
        assert(after.spec_trait_long(t) == before.spec_trait_long(t));
        let long = before.spec_trait_long(t);
        if (long.trait_id == before.facts.core.copy_trt || long.trait_id
            == before.facts.core.drop_trt) && special_impl_resolved(before, t) {
            let ty = first_type_arg(before, t);
            assert(before.sizes().has_arg(long.generic_args[0]));
            assert(after.spec_type_long(ty) == before.spec_type_long(ty));
        }
    }
}

/// Keeps the trait impls that no item has the name of.
fn find_unnamed_impls(
    trait_impls: &OrderedHashMap<SmolStrId, TraitImplId>,
    by_name: &OrderedHashMap<SmolStrId, ImplItemInfo>,
) -> (res: OrderedHashMap<SmolStrId, TraitImplId>)
    ensures
        res@ == unnamed_impls(trait_impls@, by_name@),
{
    let mut res: OrderedHashMap<SmolStrId, TraitImplId> = OrderedHashMap::new();
    let ghost keep = |e: (SmolStrId, TraitImplId)| !has_key(by_name@, e.0);
    let count: usize = trait_impls.len();
    let mut i: usize = 0;
    proof {
        reveal(Seq::filter);
        assert(trait_impls@.take(0).filter(keep) =~= Seq::empty());
    }
    while i < count
        invariant
            keep == (|e: (SmolStrId, TraitImplId)| !has_key(by_name@, e.0)),
            i <= count == trait_impls@.len(),
            unique_keys(trait_impls@),
            res@ == trait_impls@.take(i as int).filter(keep),
            forall|j: int| 0 <= j < res@.len() ==> trait_impls@.take(i as int).contains(
                #[trigger] res@[j],
            ),
        decreases count - i,
    {
        let (name, trait_impl_id) = trait_impls.entry_at(i);
        let ghost before = res@;
        let ghost seen = trait_impls@.take(i as int);
        let ghost entry = trait_impls@[i as int];
        proof {
            reveal(Seq::filter);
            assert(trait_impls@.take(i + 1).drop_last() =~= seen);
            if has_key(before, entry.0) {
                let k = crate::collections::key_index(before, entry.0);
                assert(seen.contains(before[k]));
                let m = choose|m: int| 0 <= m < seen.len() && seen[m] == before[k];
                assert(trait_impls@[m].0 == trait_impls@[i as int].0);
                assert(false);
            }
        }
        if !by_name.contains_key(name) {
            res.insert(*name, *trait_impl_id);
        }
        proof {
            assert forall|j: int| 0 <= j < res@.len() implies trait_impls@.take(i + 1).contains(
                #[trigger] res@[j],
            ) by {
                if j < before.len() {
                    let m = choose|m: int| 0 <= m < seen.len() && seen[m] == before[j];
                    assert(trait_impls@.take(i + 1)[m] == res@[j]);
                } else {
                    assert(trait_impls@.take(i + 1)[i as int] == res@[j]);
                }
            }
        }
        i += 1;
    }
    assert(trait_impls@.take(count as int) =~= trait_impls@);
    res
}

/// Keeps the required names that no item has.
fn find_missing_names(
    required: &OrderedHashSet<SmolStrId>,
    by_name: &OrderedHashMap<SmolStrId, ImplItemInfo>,
) -> (res: Vec<SmolStrId>)
    ensures
        res@ == missing_names(required@, by_name@),
{
    let mut res: Vec<SmolStrId> = Vec::new();
    let ghost keep = |name: SmolStrId| !has_key(by_name@, name);
    let count: usize = required.len();
    let mut i: usize = 0;
    proof {
        reveal(Seq::filter);
        assert(required@.take(0).filter(keep) =~= Seq::empty());
    }
    while i < count
        invariant
            keep == (|name: SmolStrId| !has_key(by_name@, name)),
            i <= count == required@.len(),
            res@ == required@.take(i as int).filter(keep),
        decreases count - i,
    {
        let name = required.at(i);
        proof {
            reveal(Seq::filter);
            assert(required@.take(i + 1).drop_last() =~= required@.take(i as int));
        }
        if !by_name.contains_key(name) {
            res.push(*name);
        }
        i += 1;
    }
    assert(required@.take(count as int) =~= required@);
    res
}

/// The definition data of an impl.
pub fn priv_impl_definition_data(db: &SemanticGroup, impl_def_id: ImplDefId) -> (res: Maybe<
    ImplDefinitionData,
>)
    requires
        db.wf(),
        db.definable(impl_def_id),
    ensures
        match res {
            Ok(data) => db.spec_definition(impl_def_id) == Ok::<_, DiagnosticAdded>(data@),
            Err(_) => db.spec_definition(impl_def_id) is Err,
        },
{
    let mut diagnostics = SemanticDiagnostics::new();
    let generic_params = match impl_def_generic_params(db, impl_def_id) {
        Ok(generic_params) => generic_params,
        Err(e) => return Err(e),
    };
    let concrete_trait = match impl_def_concrete_trait(db, impl_def_id) {
        Ok(concrete_trait) => concrete_trait,
        Err(e) => return Err(e),
    };
    let (_, ast) = match db.impl_def(impl_def_id) {
        Ok(found) => found,
        Err(e) => return Err(e),
    };

    let lookup_context = ImplLookupContext::new(
        impl_def_id.module_file_id.0,
        generic_params_ids(&generic_params),
    );
    assert(lookup_context@ =~= db.spec_impl_def_context(impl_def_id));
    // Ignore the result.
    let _ = check_special_impls(
        db,
        &mut diagnostics,
        lookup_context,
        concrete_trait,
        ast.stable_ptr,
    );

    let items = ImplItems::read(impl_def_id, ast);

    let trait_id = db.trait_long(concrete_trait).trait_id;
    let implicit_impls_id_by_name = match db.trait_impls(trait_id) {
        Ok(trait_impls) => find_unnamed_impls(trait_impls, &items.item_id_by_name),
        Err(e) => return Err(e),
    };

    // It is later verified that all items in this impl match items from `concrete_trait`.
    // To ensure exact match (up to trait functions with default implementation), it is sufficient
    // to verify here that all items in `concrete_trait` appear in this impl.
    let missing_items_in_impl = match db.trait_required_item_names(trait_id) {
        Ok(required) => find_missing_names(required, &items.item_id_by_name),
        Err(e) => return Err(e),
    };
    diagnostics.extend(items.diagnostics.build());
    if missing_items_in_impl.len() > 0 {
        diagnostics.report(
            ast.name_ptr,
            SemanticDiagnosticKind::MissingItemsInImpl(missing_items_in_impl),
        );
    }
    let data = ImplDefinitionData {
        diagnostics: diagnostics.build(),
        function_asts: items.function_asts,
        item_type_asts: items.item_type_asts,
        item_constant_asts: items.item_constant_asts,
        item_impl_asts: items.item_impl_asts,
        item_id_by_name: items.item_id_by_name,
        implicit_impls_id_by_name,
    };
    assert(data@ =~= db.spec_definition(impl_def_id)->Ok_0);
    Ok(data)
}

// --- Laws ---

/// The name that an item of a body gives.
pub open spec fn item_name(item: ImplItem) -> Option<SmolStrId> {
    match item {
        ImplItem::Function(ast, _) => Some(ast.name),
        ImplItem::Type(ast, _) => Some(ast.name),
        ImplItem::Constant(ast, _) => Some(ast.name),
        ImplItem::Impl(ast, _) => Some(ast.name),
        _ => None,
    }
}

/// Whether some item has a name.
pub open spec fn names_item(items: Seq<ImplItem>, name: SmolStrId) -> bool {
    exists|i: int| 0 <= i < items.len() && item_name(#[trigger] items[i]) == Some(name)
}

/// Whether two items have the same name.
pub open spec fn names_two_items(items: Seq<ImplItem>, name: SmolStrId) -> bool {
    exists|i: int, j: int|
        0 <= i < j < items.len() && item_name(#[trigger] items[i]) == Some(name) && item_name(
            #[trigger] items[j],
        ) == Some(name)
}

/// Whether some diagnostic says `kind`.
pub open spec fn says(diagnostics: Seq<DiagnosticView>, kind: KindView) -> bool {
    exists|i: int| 0 <= i < diagnostics.len() && (#[trigger] diagnostics[i]).kind == kind
}

impl ItemsView {
    /// Whether an item is in the table of its kind.
    pub open spec fn lists(self, id: ImplItemId) -> bool {
        match id {
            ImplItemId::Function(id) => has_key(self.functions, id),
            ImplItemId::Type(id) => has_key(self.types, id),
            ImplItemId::Constant(id) => has_key(self.constants, id),
            ImplItemId::Impl(id) => has_key(self.impls, id),
        }
    }

    /// Whether no table has a key twice.
    pub open spec fn unique(self) -> bool {
        &&& unique_keys(self.functions)
        &&& unique_keys(self.types)
        &&& unique_keys(self.constants)
        &&& unique_keys(self.impls)
        &&& unique_keys(self.by_name)
    }
}

/// The name and the impl that an item id carries.
pub open spec fn item_id_name(id: ImplItemId) -> (ImplDefId, SmolStrId) {
    match id {
        ImplItemId::Function(id) => (id.impl_def_id, id.name),
        ImplItemId::Type(id) => (id.impl_def_id, id.name),
        ImplItemId::Constant(id) => (id.impl_def_id, id.name),
        ImplItemId::Impl(id) => (id.impl_def_id, id.name),
    }
}

proof fn lemma_key_after_insert<K, V>(s: Seq<(K, V)>, k: K, v: V)
    requires
        unique_keys(s),
    ensures
        unique_keys(assoc_insert(s, k, v)),
        forall|q: K|
            #[trigger]
            has_key(assoc_insert(s, k, v), q) <==> has_key(s, q) || q == k,
{
    crate::collections::lemma_insert_unique(s, k, v);
    assert forall|q: K| #[trigger]
        has_key(assoc_insert(s, k, v), q) <==> has_key(s, q) || q == k by {
        crate::collections::law_get_after_insert(s, k, v, q);
    }
}

/// Every name that the items of a body are found by leads to an item of that name, which stands
/// in the table of its kind; the names are exactly those of the items; and no table has a key
/// twice.
pub proof fn law_named_items_are_listed(impl_def_id: ImplDefId, items: Seq<ImplItem>)
    ensures
        items_of(impl_def_id, items).unique(),
        forall|name: SmolStrId|
            (#[trigger] lookup(items_of(impl_def_id, items).by_name, name)) matches Some(info)
                ==> items_of(impl_def_id, items).lists(info.id) && item_id_name(info.id) == (
                impl_def_id,
                name,
            ),
        forall|name: SmolStrId|
            #[trigger]
            has_key(items_of(impl_def_id, items).by_name, name) <==> names_item(items, name),
    decreases items.len(),
{
    if items.len() > 0 {
        let init = items.drop_last();
        let item = items.last();
        law_named_items_are_listed(impl_def_id, init);
        let v = items_of(impl_def_id, init);
        let w = items_of(impl_def_id, items);
        assert(w == v.with_item(impl_def_id, item));
        assert forall|name: SmolStrId|
            names_item(items, name) <==> names_item(init, name) || item_name(item) == Some(
                name,
            ) by {
            if names_item(init, name) {
                let i = choose|i: int|
                    0 <= i < init.len() && item_name(#[trigger] init[i]) == Some(name);
                assert(items[i] == init[i]);
            }
            if names_item(items, name) {
                let i = choose|i: int|
                    0 <= i < items.len() && item_name(#[trigger] items[i]) == Some(name);
                if i < init.len() {
                    assert(init[i] == items[i]);
                }
            }
            if item_name(item) == Some(name) {
                assert(items[items.len() - 1] == item);
            }
        }
        match item {
            ImplItem::Function(ast, feature) => {
                let id = ImplFunctionId {
                    impl_def_id,
                    name: ast.name,
                    stable_ptr: ast.stable_ptr,
                };
                let info = ImplItemInfo {
                    id: ImplItemId::Function(id),
                    feature_kind: feature.kind,
                };
                lemma_key_after_insert(v.functions, id, ast);
                lemma_named_step(impl_def_id, v, w, ast.name, info);
            },
            ImplItem::Type(ast, feature) => {
                let id = ImplTypeDefId { impl_def_id, name: ast.name, stable_ptr: ast.stable_ptr };
                let info = ImplItemInfo { id: ImplItemId::Type(id), feature_kind: feature.kind };
                lemma_key_after_insert(v.types, id, ast);
                lemma_named_step(impl_def_id, v, w, ast.name, info);
            },
            ImplItem::Constant(ast, feature) => {
                let id = ImplConstantDefId {
                    impl_def_id,
                    name: ast.name,
                    stable_ptr: ast.stable_ptr,
                };
                let info = ImplItemInfo {
                    id: ImplItemId::Constant(id),
                    feature_kind: feature.kind,
                };
                lemma_key_after_insert(v.constants, id, ast);
                lemma_named_step(impl_def_id, v, w, ast.name, info);
            },
            ImplItem::Impl(ast, feature) => {
                let id = ImplImplDefId { impl_def_id, name: ast.name, stable_ptr: ast.stable_ptr };
                let info = ImplItemInfo { id: ImplItemId::Impl(id), feature_kind: feature.kind };
                lemma_key_after_insert(v.impls, id, ast);
                lemma_named_step(impl_def_id, v, w, ast.name, info);
            },
            _ => {},
        }
    }
}

/// Naming a listed item keeps every name leading to a listed item.
proof fn lemma_named_step(
    impl_def_id: ImplDefId,
    v: ItemsView,
    w: ItemsView,
    name: SmolStrId,
    info: ImplItemInfo,
)
    requires
        unique_keys(v.by_name),
        forall|q: SmolStrId|
            (#[trigger] lookup(v.by_name, q)) matches Some(i) ==> v.lists(i.id) && item_id_name(
                i.id,
            ) == (impl_def_id, q),
        forall|id: ImplItemId| #[trigger] v.lists(id) ==> w.lists(id),
        w.by_name == assoc_insert(v.by_name, name, info),
        w.lists(info.id),
        item_id_name(info.id) == (impl_def_id, name),
    ensures
        unique_keys(w.by_name),
        forall|q: SmolStrId|
            (#[trigger] lookup(w.by_name, q)) matches Some(i) ==> w.lists(i.id) && item_id_name(
                i.id,
            ) == (impl_def_id, q),
        forall|q: SmolStrId|
            #[trigger]
            has_key(w.by_name, q) <==> has_key(v.by_name, q) || q == name,
{
    lemma_key_after_insert(v.by_name, name, info);
    assert forall|q: SmolStrId|
        (#[trigger] lookup(w.by_name, q)) matches Some(i) ==> w.lists(i.id) && item_id_name(i.id)
            == (impl_def_id, q) by {
        crate::collections::law_get_after_insert(v.by_name, name, info, q);
    }
}

proof fn lemma_says_concat(a: Seq<DiagnosticView>, b: Seq<DiagnosticView>, kind: KindView)
    ensures
        says(a + b, kind) <==> says(a, kind) || says(b, kind),
{
    if says(a, kind) {
        let i = choose|i: int| 0 <= i < a.len() && (#[trigger] a[i]).kind == kind;
        assert((a + b)[i].kind == kind);
    }
    if says(b, kind) {
        let i = choose|i: int| 0 <= i < b.len() && (#[trigger] b[i]).kind == kind;
        assert((a + b)[a.len() + i].kind == kind);
    }
    if says(a + b, kind) {
        let i = choose|i: int| 0 <= i < (a + b).len() && (#[trigger] (a + b)[i]).kind == kind;
        if i < a.len() {
            assert(a[i].kind == kind);
        } else {
            assert(b[i - a.len()].kind == kind);
        }
    }
}

/// A name is reported to be defined several times exactly where two items of the body have it.
pub proof fn law_duplicate_names_are_reported(
    impl_def_id: ImplDefId,
    items: Seq<ImplItem>,
    name: SmolStrId,
)
    ensures
        says(
            items_of(impl_def_id, items).diagnostics,
            SemanticDiagnosticKind::NameDefinedMultipleTimes(name),
        ) <==> names_two_items(items, name),
    decreases items.len(),
{
    let kind: KindView = SemanticDiagnosticKind::NameDefinedMultipleTimes(name);
    if items.len() > 0 {
        let init = items.drop_last();
        let item = items.last();
        let v = items_of(impl_def_id, init);
        let w = items_of(impl_def_id, items);
        law_duplicate_names_are_reported(impl_def_id, init, name);
        law_named_items_are_listed(impl_def_id, init);
        assert(w == v.with_item(impl_def_id, item));
        assert(names_two_items(items, name) <==> names_two_items(init, name) || (names_item(
            init,
            name,
        ) && item_name(item) == Some(name))) by {
            if names_two_items(init, name) {
                let (i, j) = choose|i: int, j: int|
                    0 <= i < j < init.len() && item_name(#[trigger] init[i]) == Some(name)
                        && item_name(#[trigger] init[j]) == Some(name);
                assert(items[i] == init[i] && items[j] == init[j]);
            }
            if names_item(init, name) && item_name(item) == Some(name) {
                let i = choose|i: int|
                    0 <= i < init.len() && item_name(#[trigger] init[i]) == Some(name);
                assert(items[i] == init[i] && items[items.len() - 1] == item);
            }
            if names_two_items(items, name) {
                let (i, j) = choose|i: int, j: int|
                    0 <= i < j < items.len() && item_name(#[trigger] items[i]) == Some(name)
                        && item_name(#[trigger] items[j]) == Some(name);
                assert(init[i] == items[i]);
                if j < init.len() {
                    assert(init[j] == items[j]);
                }
            }
        }
        let added = w.diagnostics.skip(v.diagnostics.len() as int);
        assert(w.diagnostics =~= v.diagnostics + added);
        lemma_says_concat(v.diagnostics, added, kind);
        let feature = match item {
            ImplItem::Function(_, feature) => feature.diagnostics@,
            ImplItem::Type(_, feature) => feature.diagnostics@,
            ImplItem::Constant(_, feature) => feature.diagnostics@,
            ImplItem::Impl(_, feature) => feature.diagnostics@,
            _ => seq![],
        };
        assert(!says(outside_view(feature), kind));
        match item_name(item) {
            Some(own) => {
                let last = if has_key(v.by_name, own) {
                    added.last()
                } else {
                    arbitrary()
                };
                if has_key(v.by_name, own) {
                    assert(added =~= outside_view(feature).push(last));
                    assert(added =~= outside_view(feature) + seq![last]);
                    lemma_says_concat(outside_view(feature), seq![last], kind);
                    assert(seq![last][0] == last);
                    assert(says(seq![last], kind) <==> own == name);
                } else {
                    assert(added =~= outside_view(feature));
                }
            },
            None => {
                assert(added.len() <= 1);
                assert(!says(added, kind));
            },
        }
    }
}

/// The place of the name that an item of a body gives.
pub open spec fn item_place(item: ImplItem) -> Option<SyntaxStablePtrId> {
    match item {
        ImplItem::Function(ast, _) => Some(ast.name_ptr),
        ImplItem::Type(ast, _) => Some(ast.name_ptr),
        ImplItem::Constant(ast, _) => Some(ast.name_ptr),
        ImplItem::Impl(ast, _) => Some(ast.name_ptr),
        _ => None,
    }
}

/// What an item of a body is found with by its name.
pub open spec fn item_info(impl_def_id: ImplDefId, item: ImplItem) -> Option<ImplItemInfo> {
    match item {
        ImplItem::Function(ast, feature) => Some(
            ImplItemInfo {
                id: ImplItemId::Function(
                    ImplFunctionId { impl_def_id, name: ast.name, stable_ptr: ast.stable_ptr },
                ),
                feature_kind: feature.kind,
            },
        ),
        ImplItem::Type(ast, feature) => Some(
            ImplItemInfo {
                id: ImplItemId::Type(
                    ImplTypeDefId { impl_def_id, name: ast.name, stable_ptr: ast.stable_ptr },
                ),
                feature_kind: feature.kind,
            },
        ),
        ImplItem::Constant(ast, feature) => Some(
            ImplItemInfo {
                id: ImplItemId::Constant(
                    ImplConstantDefId { impl_def_id, name: ast.name, stable_ptr: ast.stable_ptr },
                ),
                feature_kind: feature.kind,
            },
        ),
        ImplItem::Impl(ast, feature) => Some(
            ImplItemInfo {
                id: ImplItemId::Impl(
                    ImplImplDefId { impl_def_id, name: ast.name, stable_ptr: ast.stable_ptr },
                ),
                feature_kind: feature.kind,
            },
        ),
        _ => None,
    }
}

/// The places at which the items of a body give a name, in order.
pub open spec fn name_places(items: Seq<ImplItem>, name: SmolStrId) -> Seq<SyntaxStablePtrId>
    decreases items.len(),
{
    if items.len() == 0 {
        seq![]
    } else {
        let places = name_places(items.drop_last(), name);
        if item_name(items.last()) == Some(name) {
            places.push(item_place(items.last())->0)
        } else {
            places
        }
    }
}

/// The places at which diagnostics say `kind`, in order.
pub open spec fn places_saying(diagnostics: Seq<DiagnosticView>, kind: KindView) -> Seq<
    SyntaxStablePtrId,
>
    decreases diagnostics.len(),
{
    if diagnostics.len() == 0 {
        seq![]
    } else {
        let places = places_saying(diagnostics.drop_last(), kind);
        if diagnostics.last().kind == kind {
            places.push(diagnostics.last().stable_ptr)
        } else {
            places
        }
    }
}

proof fn lemma_places_saying_concat(
    a: Seq<DiagnosticView>,
    b: Seq<DiagnosticView>,
    kind: KindView,
)
    ensures
        places_saying(a + b, kind) == places_saying(a, kind) + places_saying(b, kind),
    decreases b.len(),
{
    if b.len() == 0 {
        assert(a + b =~= a);
        assert(places_saying(a, kind) + places_saying(b, kind) =~= places_saying(a, kind));
    } else {
        lemma_places_saying_concat(a, b.drop_last(), kind);
        assert((a + b).drop_last() =~= a + b.drop_last());
        assert((a + b).last() == b.last());
        assert(places_saying(a + b, kind) =~= places_saying(a, kind) + places_saying(b, kind));
    }
}

/// Diagnostics of which none says `kind` say it at no place.
proof fn lemma_no_place_says(diagnostics: Seq<DiagnosticView>, kind: KindView)
    requires
        !says(diagnostics, kind),
    ensures
        places_saying(diagnostics, kind).len() == 0,
    decreases diagnostics.len(),
{
    if diagnostics.len() > 0 {
        let init = diagnostics.drop_last();
        assert(diagnostics[diagnostics.len() - 1].kind != kind);
        assert(!says(init, kind)) by {
            if says(init, kind) {
                let i = choose|i: int| 0 <= i < init.len() && (#[trigger] init[i]).kind == kind;
                assert(diagnostics[i].kind == kind);
            }
        }
        lemma_no_place_says(init, kind);
    }
}

/// What one more item of a body adds: its name leads to it, and where the name was given before,
/// it is reported at the new place.
proof fn lemma_item_named(
    impl_def_id: ImplDefId,
    v: ItemsView,
    item: ImplItem,
    own: SmolStrId,
    name: SmolStrId,
)
    requires
        item_name(item) == Some(own),
    ensures
        v.with_item(impl_def_id, item).by_name == assoc_insert(
            v.by_name,
            own,
            item_info(impl_def_id, item)->0,
        ),
        ({
            let kind: KindView = SemanticDiagnosticKind::NameDefinedMultipleTimes(name);
            let places = places_saying(v.diagnostics, kind);
            places_saying(v.with_item(impl_def_id, item).diagnostics, kind) == if own == name
                && has_key(v.by_name, own) {
                places.push(item_place(item)->0)
            } else {
                places
            }
        }),
{
    let kind: KindView = SemanticDiagnosticKind::NameDefinedMultipleTimes(name);
    let feature = match item {
        ImplItem::Function(_, feature) => feature.diagnostics@,
        ImplItem::Type(_, feature) => feature.diagnostics@,
        ImplItem::Constant(_, feature) => feature.diagnostics@,
        ImplItem::Impl(_, feature) => feature.diagnostics@,
        _ => seq![],
    };
    let seen = v.diagnostics + outside_view(feature);
    assert(!says(outside_view(feature), kind));
    lemma_no_place_says(outside_view(feature), kind);
    lemma_places_saying_concat(v.diagnostics, outside_view(feature), kind);
    assert(places_saying(seen, kind) =~= places_saying(v.diagnostics, kind));
    let w = v.with_item(impl_def_id, item);
    if has_key(v.by_name, own) {
        assert(w.diagnostics.drop_last() =~= seen);
        assert(w.diagnostics.last() == diagnostic(
            item_place(item)->0,
            SemanticDiagnosticKind::NameDefinedMultipleTimes(own),
        ));
    } else {
        assert(w.diagnostics == seen);
    }
}

/// An item without a name names nothing.
proof fn lemma_item_unnamed(
    impl_def_id: ImplDefId,
    v: ItemsView,
    item: ImplItem,
    name: SmolStrId,
)
    requires
        item_name(item) is None,
    ensures
        v.with_item(impl_def_id, item).by_name == v.by_name,
        ({
            let kind: KindView = SemanticDiagnosticKind::NameDefinedMultipleTimes(name);
            places_saying(v.with_item(impl_def_id, item).diagnostics, kind) == places_saying(
                v.diagnostics,
                kind,
            )
        }),
{
    let w = v.with_item(impl_def_id, item);
    if w.diagnostics.len() > v.diagnostics.len() {
        assert(w.diagnostics.drop_last() =~= v.diagnostics);
    }
}

/// A name that several items of a body give is reported at each of their places but the first, in
/// order: once less than there are items.
pub proof fn law_repeated_names_are_reported_again(
    impl_def_id: ImplDefId,
    items: Seq<ImplItem>,
    name: SmolStrId,
)
    ensures
        ({
            let places = name_places(items, name);
            places_saying(
                items_of(impl_def_id, items).diagnostics,
                SemanticDiagnosticKind::NameDefinedMultipleTimes(name),
            ) == if places.len() == 0 {
                places
            } else {
                places.drop_first()
            }
        }),
        name_places(items, name).len() > 0 <==> has_key(items_of(impl_def_id, items).by_name, name),
    decreases items.len(),
{
    if items.len() > 0 {
        let init = items.drop_last();
        let item = items.last();
        let v = items_of(impl_def_id, init);
        law_repeated_names_are_reported_again(impl_def_id, init, name);
        law_named_items_are_listed(impl_def_id, init);
        let before = name_places(init, name);
        let now = name_places(items, name);
        match item_name(item) {
            Some(own) => {
                lemma_item_named(impl_def_id, v, item, own, name);
                lemma_key_after_insert(v.by_name, own, item_info(impl_def_id, item)->0);
                if own == name {
                    if before.len() > 0 {
                        assert(now.drop_first() =~= before.drop_first().push(now.last()));
                    } else {
                        assert(now.drop_first() =~= before);
                    }
                }
            },
            None => {
                lemma_item_unnamed(impl_def_id, v, item, name);
            },
        }
    }
}

/// Of the items of a body with one name, the last is the one that is found by it.
pub proof fn law_last_item_keeps_its_name(impl_def_id: ImplDefId, items: Seq<ImplItem>, i: int)
    requires
        0 <= i < items.len(),
        item_name(items[i]) is Some,
        forall|j: int|
            i < j < items.len() ==> item_name(#[trigger] items[j]) != item_name(items[i]),
    ensures
        lookup(items_of(impl_def_id, items).by_name, item_name(items[i])->0) == item_info(
            impl_def_id,
            items[i],
        ),
    decreases items.len(),
{
    let init = items.drop_last();
    let item = items.last();
    let name = item_name(items[i])->0;
    let v = items_of(impl_def_id, init);
    law_named_items_are_listed(impl_def_id, init);
    match item_name(item) {
        Some(own) => {
            lemma_item_named(impl_def_id, v, item, own, name);
            crate::collections::law_get_after_insert(
                v.by_name,
                own,
                item_info(impl_def_id, item)->0,
                name,
            );
        },
        None => {
            lemma_item_unnamed(impl_def_id, v, item, name);
        },
    }
    if i < init.len() {
        assert(items[items.len() - 1] == item);
        assert(init[i] == items[i]);
        assert forall|j: int| i < j < init.len() implies item_name(#[trigger] init[j])
            != item_name(init[i]) by {
            assert(init[j] == items[j]);
        }
        law_last_item_keeps_its_name(impl_def_id, init, i);
    }
}

/// Every item that stands in the table of its kind has a name that items are found by.
pub proof fn law_listed_items_have_known_names(
    impl_def_id: ImplDefId,
    items: Seq<ImplItem>,
    id: ImplItemId,
)
    requires
        items_of(impl_def_id, items).lists(id),
    ensures
        has_key(items_of(impl_def_id, items).by_name, item_id_name(id).1),
    decreases items.len(),
{
    if items.len() > 0 {
        let init = items.drop_last();
        let item = items.last();
        let v = items_of(impl_def_id, init);
        let name = item_id_name(id).1;
        law_named_items_are_listed(impl_def_id, init);
        if v.lists(id) {
            law_listed_items_have_known_names(impl_def_id, init, id);
        }
        match item_name(item) {
            Some(own) => {
                lemma_item_named(impl_def_id, v, item, own, name);
                lemma_key_after_insert(v.by_name, own, item_info(impl_def_id, item)->0);
                lemma_listed_after(impl_def_id, v, item, id);
            },
            None => {
                lemma_item_unnamed(impl_def_id, v, item, name);
            },
        }
    }
}

/// One more item of a body lists that item and those listed before.
proof fn lemma_listed_after(impl_def_id: ImplDefId, v: ItemsView, item: ImplItem, id: ImplItemId)
    requires
        v.unique(),
        v.with_item(impl_def_id, item).lists(id),
        item_name(item) is Some,
    ensures
        v.lists(id) || id == (item_info(impl_def_id, item)->0).id,
{
    match item {
        ImplItem::Function(ast, _) => {
            let key = ImplFunctionId { impl_def_id, name: ast.name, stable_ptr: ast.stable_ptr };
            lemma_key_after_insert(v.functions, key, ast);
        },
        ImplItem::Type(ast, _) => {
            let key = ImplTypeDefId { impl_def_id, name: ast.name, stable_ptr: ast.stable_ptr };
            lemma_key_after_insert(v.types, key, ast);
        },
        ImplItem::Constant(ast, _) => {
            let key = ImplConstantDefId { impl_def_id, name: ast.name, stable_ptr: ast.stable_ptr };
            lemma_key_after_insert(v.constants, key, ast);
        },
        ImplItem::Impl(ast, _) => {
            let key = ImplImplDefId { impl_def_id, name: ast.name, stable_ptr: ast.stable_ptr };
            lemma_key_after_insert(v.impls, key, ast);
        },
        _ => {},
    }
}

/// Every trait impl that an impl does not name is implicit, every implicit impl is one of the
/// trait that the impl does not name, and an implicit impl never has the name of an item.
pub proof fn law_implicit_impls_are_the_unnamed(
    trait_impls: Seq<(SmolStrId, TraitImplId)>,
    by_name: Seq<(SmolStrId, ImplItemInfo)>,
    entry: (SmolStrId, TraitImplId),
)
    ensures
        unnamed_impls(trait_impls, by_name).contains(entry) <==> trait_impls.contains(entry)
            && !has_key(by_name, entry.0),
{
    lemma_filter_members(
        trait_impls,
        |e: (SmolStrId, TraitImplId)| !has_key(by_name, e.0),
        entry,
    );
}

/// Items are reported to be missing exactly where the trait requires a name that no item of the
/// impl has; the report lists exactly these names.
pub proof fn law_missing_items_are_reported(
    required: Seq<SmolStrId>,
    by_name: Seq<(SmolStrId, ImplItemInfo)>,
    name_ptr: SyntaxStablePtrId,
)
    ensures
        missing_diagnostics(required, by_name, name_ptr).len() > 0 <==> exists|name: SmolStrId|
            #[trigger] required.contains(name) && !has_key(by_name, name),
        forall|name: SmolStrId|
            #[trigger]
            missing_names(required, by_name).contains(name) <==> required.contains(name)
                && !has_key(by_name, name),
{
    let missing = missing_names(required, by_name);
    assert forall|name: SmolStrId| #[trigger]
        missing.contains(name) <==> required.contains(name) && !has_key(by_name, name) by {
        lemma_filter_members(required, |n: SmolStrId| !has_key(by_name, n), name);
    }
    if missing.len() > 0 {
        assert(missing.contains(missing[0]));
        assert(required.contains(missing[0]));
    }
    if exists|name: SmolStrId| #[trigger] required.contains(name) && !has_key(by_name, name) {
        let name = choose|name: SmolStrId| #[trigger]
            required.contains(name) && !has_key(by_name, name);
        assert(missing.contains(name));
    }
}

/// Whether the `k`-th type that has to be copied, or dropped, along with a type is `member`: a
/// member of a struct, what a variant of an enum holds, a part of a tuple, or what an array is of.
pub open spec fn has_member_at(db: SemanticGroup, ty: TypeId, k: int, member: TypeId) -> bool {
    match db.interned@.types[ty.0 as int] {
        TypeLongId::Concrete(ConcreteTypeId::Struct(id)) => lookup(
            db.facts.struct_members@,
            id,
        ) matches Some(Ok(members)) && 0 <= k < members@.len() && members@[k] == member,
        TypeLongId::Concrete(ConcreteTypeId::Enum(id)) => lookup(
            db.facts.enum_variants@,
            id,
        ) matches Some(Ok(variants)) && 0 <= k < variants@.len() && variants@[k] == member,
        TypeLongId::Tuple(parts) => 0 <= k < parts.len() && parts[k] == member,
        TypeLongId::FixedSizeArray { type_id, .. } => k == 0 && type_id == member,
        _ => false,
    }
}

/// Whether the types that have to be copied, or dropped, along with a type are known.
pub open spec fn members_known(db: SemanticGroup, ty: TypeId) -> bool {
    match db.interned@.types[ty.0 as int] {
        TypeLongId::Concrete(ConcreteTypeId::Struct(id)) => lookup(
            db.facts.struct_members@,
            id,
        ) matches Some(Ok(_)),
        TypeLongId::Concrete(ConcreteTypeId::Enum(id)) => lookup(
            db.facts.enum_variants@,
            id,
        ) matches Some(Ok(_)),
        TypeLongId::GenericParameter(_) => false,
        TypeLongId::Var(_) => false,
        TypeLongId::ImplType(_) => false,
        TypeLongId::Missing(_) => false,
        _ => true,
    }
}

/// The inner types of a type are its members, in their order and no others.
pub proof fn law_inner_types_are_the_members(db: SemanticGroup, ty: TypeId)
    ensures
        inner_types(db, ty) is Ok <==> members_known(db, ty),
        inner_types(db, ty) matches Ok(types) ==> forall|k: int, member: TypeId|
            0 <= k < types.len() && types[k] == member <==> #[trigger] has_member_at(
                db,
                ty,
                k,
                member,
            ),
{
}

/// Whether it is recorded that a type cannot be copied, or dropped, in a context. That it can be in
/// several ways is no hindrance.
pub open spec fn hindered_by(
    db: SemanticGroup,
    context: ContextView,
    ty: TypeId,
    copying: bool,
    e: InferenceError,
) -> bool {
    &&& !(e matches InferenceError::Ambiguity(Ambiguity::MultipleImplsFound(_)))
    &&& lookup(db.facts.type_infos@, (context, ty)) matches Some(info) && {
        ||| copying && (info.copyable matches Err(given) && given == e)
        ||| !copying && (info.droppable matches Err(given) && given == e)
    }
}

/// The first hindrance is that of the first type that has one.
proof fn lemma_first_hindrance(
    db: SemanticGroup,
    context: ContextView,
    types: Seq<TypeId>,
    i: int,
    copying: bool,
)
    requires
        0 <= i <= types.len(),
    ensures
        match first_obstacle(db.facts, context, types, i, copying) {
            Some(e) => exists|k: int|
                i <= k < types.len() && hindered_by(
                    db,
                    context,
                    #[trigger] types[k],
                    copying,
                    e,
                ) && forall|j: int, f: InferenceError|
                    i <= j < k ==> !(#[trigger] hindered_by(db, context, types[j], copying, f)),
            None => forall|j: int, f: InferenceError|
                i <= j < types.len() ==> !(#[trigger] hindered_by(db, context, types[j], copying, f)),
        },
    decreases types.len() - i,
{
    if i < types.len() {
        match obstacle(db.facts.spec_type_info(context, types[i]), copying) {
            Some(e) => {
                assert(hindered_by(db, context, types[i], copying, e));
            },
            None => {
                lemma_first_hindrance(db, context, types, i + 1, copying);
                assert(forall|f: InferenceError|
                    !hindered_by(db, context, types[i], copying, f));
                if let Some(e) = first_obstacle(db.facts, context, types, i + 1, copying) {
                    let k = choose|k: int|
                        i + 1 <= k < types.len() && hindered_by(
                            db,
                            context,
                            #[trigger] types[k],
                            copying,
                            e,
                        ) && forall|j: int, f: InferenceError|
                            i + 1 <= j < k ==> !(#[trigger] hindered_by(db, context, types[j], copying, f));
                    assert(hindered_by(db, context, types[k], copying, e));
                }
            },
        }
    }
}

/// An impl of `Copy`, or of `Drop`, for a type is accepted exactly where the members of the type are
/// known, and none of them is hindered from being copied, or dropped. A hindrance is reported at the
/// impl, with the first one; members that are not known are not. Impls of other traits are accepted.
pub proof fn law_copied_types_have_copied_members(
    db: SemanticGroup,
    context: ContextView,
    concrete_trait: ConcreteTraitId,
    ty: TypeId,
    stable_ptr: SyntaxStablePtrId,
    copying: bool,
)
    requires
        db.interned@.concrete_traits[concrete_trait.0 as int].trait_id == if copying {
            db.facts.core.copy_trt
        } else {
            db.facts.core.drop_trt
        },
        db.facts.core.copy_trt != db.facts.core.drop_trt,
        db.interned@.concrete_traits[concrete_trait.0 as int].generic_args.len() > 0,
        db.interned@.concrete_traits[concrete_trait.0 as int].generic_args[0] matches
            GenericArgumentId::Type(arg) && arg == ty,
    ensures
        special_impl_check(db, context, concrete_trait) is Ok <==> members_known(db, ty) && forall|
            k: int,
            member: TypeId,
            e: InferenceError,
        |
            #[trigger] has_member_at(db, ty, k, member) ==> !(#[trigger] hindered_by(
                db,
                context,
                member,
                copying,
                e,
            )),
        special_impl_check(db, context, concrete_trait) is Ok || !members_known(db, ty)
            ==> special_impl_diagnostics(db, context, concrete_trait, stable_ptr).len() == 0,
        special_impl_check(db, context, concrete_trait) is Err && members_known(db, ty)
            ==> exists|k: int, member: TypeId, e: InferenceError|
            #[trigger] has_member_at(db, ty, k, member) && #[trigger] hindered_by(
                db,
                context,
                member,
                copying,
                e,
            ) && special_impl_diagnostics(db, context, concrete_trait, stable_ptr) == seq![
                SemanticDiagnostic {
                    stable_ptr,
                    kind: if copying {
                        SemanticDiagnosticKind::<
                            Seq<SmolStrId>,
                            Seq<char>,
                        >::InvalidCopyTraitImpl(e)
                    } else {
                        SemanticDiagnosticKind::InvalidDropTraitImpl(e)
                    },
                },
            ] && forall|j: int, other: TypeId, f: InferenceError|
                j < k && #[trigger] has_member_at(db, ty, j, other) ==> !(#[trigger] hindered_by(
                    db,
                    context,
                    other,
                    copying,
                    f,
                )),
{
    law_inner_types_are_the_members(db, ty);
    assert(first_type_arg(db, concrete_trait) == ty);
    let found = special_impl_diagnostics(db, context, concrete_trait, stable_ptr);
    if let Ok(types) = inner_types(db, ty) {
        lemma_first_hindrance(db, context, types, 0, copying);
        match first_obstacle(db.facts, context, types, 0, copying) {
            Some(e) => {
                let k = choose|k: int|
                    0 <= k < types.len() && hindered_by(
                        db,
                        context,
                        #[trigger] types[k],
                        copying,
                        e,
                    ) && forall|j: int, f: InferenceError|
                        0 <= j < k ==> !(#[trigger] hindered_by(db, context, types[j], copying, f));
                let member = types[k];
                assert(has_member_at(db, ty, k, member));
                assert forall|j: int, other: TypeId, f: InferenceError|
                    j < k && #[trigger] has_member_at(db, ty, j, other) implies !(
                #[trigger] hindered_by(db, context, other, copying, f)) by {
                    assert(0 <= j < types.len() && types[j] == other);
                }
                assert(found.len() == 1);
                assert(hindered_by(db, context, member, copying, e));
            },
            None => {
                assert forall|k: int, member: TypeId, e: InferenceError| #[trigger]
                    has_member_at(db, ty, k, member) implies !(#[trigger] hindered_by(
                    db,
                    context,
                    member,
                    copying,
                    e,
                )) by {
                    assert(0 <= k < types.len() && types[k] == member);
                }
            },
        }
    }
}

/// Impls of other traits than `Copy` and `Drop` need no members.
pub proof fn law_other_impls_need_no_members(
    db: SemanticGroup,
    context: ContextView,
    concrete_trait: ConcreteTraitId,
    stable_ptr: SyntaxStablePtrId,
)
    requires
        db.interned@.concrete_traits[concrete_trait.0 as int].trait_id != db.facts.core.copy_trt,
        db.interned@.concrete_traits[concrete_trait.0 as int].trait_id != db.facts.core.drop_trt,
    ensures
        special_impl_check(db, context, concrete_trait) is Ok,
        special_impl_diagnostics(db, context, concrete_trait, stable_ptr).len() == 0,
{
}

/// The items that are written in the body of an impl; an impl without a body has none.
pub open spec fn written_items(ast: ItemImpl) -> Seq<ImplItem> {
    match ast.body {
        Some(items) => items@,
        None => seq![],
    }
}

/// Whether the syntax of an impl is recorded.
pub open spec fn is_written(db: SemanticGroup, impl_def_id: ImplDefId, ast: ItemImpl) -> bool {
    lookup(db.facts.impl_defs@, impl_def_id) matches Some(f) && (f.ast matches Ok(Some(written))
        && written == ast)
}

/// Whether a body has an item that gets an id.
pub open spec fn writes_item(impl_def_id: ImplDefId, items: Seq<ImplItem>, id: ImplItemId) -> bool {
    exists|i: int|
        0 <= i < items.len() && (item_info(impl_def_id, #[trigger] items[i]) matches Some(info)
            && info.id == id)
}

/// Whether an item is the last of a body that gets its id.
pub open spec fn is_last_of_id(impl_def_id: ImplDefId, items: Seq<ImplItem>, i: int) -> bool {
    &&& 0 <= i < items.len()
    &&& forall|j: int|
        i < j < items.len() ==> (item_info(impl_def_id, #[trigger] items[j]) matches Some(info)
            ==> Some(info.id) != (match item_info(impl_def_id, items[i]) {
            Some(own) => Some(own.id),
            None => None,
        }))
}

/// Whether an item is the last of a body with its name.
pub open spec fn is_last_of_name(items: Seq<ImplItem>, i: int) -> bool {
    &&& 0 <= i < items.len()
    &&& item_name(items[i]) is Some
    &&& forall|j: int|
        i < j < items.len() ==> item_name(#[trigger] items[j]) != item_name(items[i])
}

/// The items in the tables of a body are those that are written.
proof fn lemma_listed_are_written(impl_def_id: ImplDefId, items: Seq<ImplItem>, id: ImplItemId)
    ensures
        items_of(impl_def_id, items).lists(id) <==> writes_item(impl_def_id, items, id),
    decreases items.len(),
{
    if items.len() > 0 {
        let init = items.drop_last();
        let item = items.last();
        let v = items_of(impl_def_id, init);
        law_named_items_are_listed(impl_def_id, init);
        lemma_listed_are_written(impl_def_id, init, id);
        assert(items_of(impl_def_id, items).lists(id) <==> v.lists(id) || (item_info(
            impl_def_id,
            item,
        ) matches Some(info) && info.id == id)) by {
            match item {
                ImplItem::Function(ast, _) => {
                    let key = ImplFunctionId {
                        impl_def_id,
                        name: ast.name,
                        stable_ptr: ast.stable_ptr,
                    };
                    lemma_key_after_insert(v.functions, key, ast);
                },
                ImplItem::Type(ast, _) => {
                    let key = ImplTypeDefId {
                        impl_def_id,
                        name: ast.name,
                        stable_ptr: ast.stable_ptr,
                    };
                    lemma_key_after_insert(v.types, key, ast);
                },
                ImplItem::Constant(ast, _) => {
                    let key = ImplConstantDefId {
                        impl_def_id,
                        name: ast.name,
                        stable_ptr: ast.stable_ptr,
                    };
                    lemma_key_after_insert(v.constants, key, ast);
                },
                ImplItem::Impl(ast, _) => {
                    let key = ImplImplDefId {
                        impl_def_id,
                        name: ast.name,
                        stable_ptr: ast.stable_ptr,
                    };
                    lemma_key_after_insert(v.impls, key, ast);
                },
                _ => {},
            }
        }
        if writes_item(impl_def_id, init, id) {
            let i = choose|i: int|
                0 <= i < init.len() && (item_info(impl_def_id, #[trigger] init[i]) matches Some(info)
                    && info.id == id);
            assert(items[i] == init[i]);
        }
        if item_info(impl_def_id, item) matches Some(info) && info.id == id {
            assert(items[items.len() - 1] == item);
        }
        if writes_item(impl_def_id, items, id) {
            let i = choose|i: int|
                0 <= i < items.len() && (item_info(
                    impl_def_id,
                    #[trigger] items[i],
                ) matches Some(info) && info.id == id);
            if i < init.len() {
                assert(init[i] == items[i]);
            }
        }
    }
}

/// An item is kept as it is written last.
proof fn lemma_last_written_is_kept(impl_def_id: ImplDefId, items: Seq<ImplItem>, i: int)
    requires
        is_last_of_id(impl_def_id, items, i),
    ensures
        keeps_item(
            items_of(impl_def_id, items).functions,
            items_of(impl_def_id, items).types,
            items_of(impl_def_id, items).constants,
            items_of(impl_def_id, items).impls,
            impl_def_id,
            items[i],
        ),
    decreases items.len(),
{
    let init = items.drop_last();
    let item = items.last();
    let v = items_of(impl_def_id, init);
    law_named_items_are_listed(impl_def_id, init);
    if i < init.len() {
        assert(init[i] == items[i]);
        assert(items[items.len() - 1] == item);
        assert forall|j: int| i < j < init.len() implies (item_info(
            impl_def_id,
            #[trigger] init[j],
        ) matches Some(info) ==> Some(info.id) != (match item_info(impl_def_id, init[i]) {
            Some(own) => Some(own.id),
            None => None,
        })) by {
            assert(init[j] == items[j]);
        }
        lemma_last_written_is_kept(impl_def_id, init, i);
    }
    match (item, items[i]) {
        (ImplItem::Function(ast, _), ImplItem::Function(own, _)) => {
            let key = ImplFunctionId { impl_def_id, name: ast.name, stable_ptr: ast.stable_ptr };
            let of = ImplFunctionId { impl_def_id, name: own.name, stable_ptr: own.stable_ptr };
            crate::collections::law_get_after_insert(v.functions, key, ast, of);
        },
        (ImplItem::Type(ast, _), ImplItem::Type(own, _)) => {
            let key = ImplTypeDefId { impl_def_id, name: ast.name, stable_ptr: ast.stable_ptr };
            let of = ImplTypeDefId { impl_def_id, name: own.name, stable_ptr: own.stable_ptr };
            crate::collections::law_get_after_insert(v.types, key, ast, of);
        },
        (ImplItem::Constant(ast, _), ImplItem::Constant(own, _)) => {
            let key = ImplConstantDefId { impl_def_id, name: ast.name, stable_ptr: ast.stable_ptr };
            let of = ImplConstantDefId { impl_def_id, name: own.name, stable_ptr: own.stable_ptr };
            crate::collections::law_get_after_insert(v.constants, key, ast, of);
        },
        (ImplItem::Impl(ast, _), ImplItem::Impl(own, _)) => {
            let key = ImplImplDefId { impl_def_id, name: ast.name, stable_ptr: ast.stable_ptr };
            let of = ImplImplDefId { impl_def_id, name: own.name, stable_ptr: own.stable_ptr };
            crate::collections::law_get_after_insert(v.impls, key, ast, of);
        },
        _ => {},
    }
}

/// Whether the table of its kind holds an item as it is written.
pub open spec fn keeps_item(
    functions: Seq<(ImplFunctionId, FunctionWithBody)>,
    types: Seq<(ImplTypeDefId, ItemTypeAlias)>,
    constants: Seq<(ImplConstantDefId, ItemConstant)>,
    impls: Seq<(ImplImplDefId, ItemImplAlias)>,
    impl_def_id: ImplDefId,
    item: ImplItem,
) -> bool {
    match item {
        ImplItem::Function(ast, _) => lookup(
            functions,
            ImplFunctionId { impl_def_id, name: ast.name, stable_ptr: ast.stable_ptr },
        ) == Some(ast),
        ImplItem::Type(ast, _) => lookup(
            types,
            ImplTypeDefId { impl_def_id, name: ast.name, stable_ptr: ast.stable_ptr },
        ) == Some(ast),
        ImplItem::Constant(ast, _) => lookup(
            constants,
            ImplConstantDefId { impl_def_id, name: ast.name, stable_ptr: ast.stable_ptr },
        ) == Some(ast),
        ImplItem::Impl(ast, _) => lookup(
            impls,
            ImplImplDefId { impl_def_id, name: ast.name, stable_ptr: ast.stable_ptr },
        ) == Some(ast),
        _ => true,
    }
}

/// Whether an item is in the table of its kind in a definition.
pub open spec fn defines_item(d: DefinitionView, id: ImplItemId) -> bool {
    match id {
        ImplItemId::Function(id) => has_key(d.functions, id),
        ImplItemId::Type(id) => has_key(d.types, id),
        ImplItemId::Constant(id) => has_key(d.constants, id),
        ImplItemId::Impl(id) => has_key(d.impls, id),
    }
}

/// The definition of an impl lists exactly the items that are written in its body, each as it is
/// written last, and finds the last item of a name by that name.
pub proof fn law_definitions_list_what_is_written(
    db: SemanticGroup,
    impl_def_id: ImplDefId,
    ast: ItemImpl,
    d: DefinitionView,
)
    requires
        is_written(db, impl_def_id, ast),
        db.spec_definition(impl_def_id) == Ok::<_, DiagnosticAdded>(d),
    ensures
        forall|id: ImplItemId| #[trigger]
            defines_item(d, id) <==> writes_item(impl_def_id, written_items(ast), id),
        forall|i: int| #[trigger]
            is_last_of_id(impl_def_id, written_items(ast), i) ==> keeps_item(
                d.functions,
                d.types,
                d.constants,
                d.impls,
                impl_def_id,
                written_items(ast)[i],
            ),
        forall|name: SmolStrId| #[trigger]
            has_key(d.by_name, name) <==> names_item(written_items(ast), name),
        forall|i: int| #[trigger]
            is_last_of_name(written_items(ast), i) ==> lookup(
                d.by_name,
                item_name(written_items(ast)[i])->0,
            ) == item_info(impl_def_id, written_items(ast)[i]),
{
    let items = written_items(ast);
    let v = items_of(impl_def_id, items);
    assert(impl_items(impl_def_id, ast) == v);
    law_named_items_are_listed(impl_def_id, items);
    assert forall|id: ImplItemId| #[trigger] defines_item(d, id) <==> writes_item(
        impl_def_id,
        items,
        id,
    ) by {
        lemma_listed_are_written(impl_def_id, items, id);
        assert(defines_item(d, id) == v.lists(id));
    }
    assert forall|i: int| #[trigger] is_last_of_id(impl_def_id, items, i) implies keeps_item(
        d.functions,
        d.types,
        d.constants,
        d.impls,
        impl_def_id,
        items[i],
    ) by {
        lemma_last_written_is_kept(impl_def_id, items, i);
    }
    assert forall|i: int| #[trigger] is_last_of_name(items, i) implies lookup(
        d.by_name,
        item_name(items[i])->0,
    ) == item_info(impl_def_id, items[i]) by {
        law_last_item_keeps_its_name(impl_def_id, items, i);
    }
}

/// An impl has a definition exactly where the trait that it implements is known with its impls and
/// the names that it requires. The impls that are left to inference are those that the trait has,
/// and no written item has the name of. What is wrong with an impl of `Copy` or `Drop`, and what is
/// wrong with its items, is reported, and the required names that no written item has are, at the
/// name of the impl.
pub proof fn law_definitions_follow_the_trait(
    db: SemanticGroup,
    impl_def_id: ImplDefId,
    ast: ItemImpl,
    concrete_trait: ConcreteTraitId,
)
    requires
        is_written(db, impl_def_id, ast),
        db.spec_impl_def_concrete_trait(impl_def_id) == Ok::<_, DiagnosticAdded>(concrete_trait),
    ensures
        ({
            let trait_id = db.interned@.concrete_traits[concrete_trait.0 as int].trait_id;
            let items = written_items(ast);
            match lookup(db.facts.traits@, trait_id) {
                Some(f) => match (f.impls, f.required_item_names, db.spec_definition(impl_def_id)) {
                    (Ok(impls), Ok(required), Ok(d)) => {
                        &&& forall|entry: (SmolStrId, TraitImplId)| #[trigger]
                            d.implicit_impls.contains(entry) <==> impls@.contains(entry)
                                && !names_item(items, entry.0)
                        &&& (forall|name: SmolStrId| #[trigger]
                            required@.contains(name) ==> names_item(items, name)) <==> !(exists|
                            k: int,
                        |
                            0 <= k < d.diagnostics.len() && (#[trigger] d.diagnostics[k]).kind
                                is MissingItemsInImpl)
                        &&& forall|k: int|
                            0 <= k < d.diagnostics.len() ==> ((
                            #[trigger] d.diagnostics[k]).kind matches
                                SemanticDiagnosticKind::MissingItemsInImpl(names)
                                ==> d.diagnostics[k].stable_ptr == ast.name_ptr && forall|
                                name: SmolStrId,
                            | #[trigger]
                                names.contains(name) <==> required@.contains(name) && !names_item(
                                    items,
                                    name,
                                ))
                        &&& forall|x: DiagnosticView|
                            special_impl_diagnostics(
                                db,
                                db.spec_impl_def_context(impl_def_id),
                                concrete_trait,
                                ast.stable_ptr,
                            ).contains(x) || items_of(impl_def_id, items).diagnostics.contains(x)
                                ==> #[trigger] d.diagnostics.contains(x)
                    },
                    (Ok(_), Ok(_), Err(_)) => false,
                    (_, _, res) => res is Err,
                },
                None => db.spec_definition(impl_def_id) is Err,
            }
        }),
{
    let trait_id = db.spec_trait_long(concrete_trait).trait_id;
    let items = written_items(ast);
    let v = items_of(impl_def_id, items);
    assert(impl_items(impl_def_id, ast) == v);
    law_named_items_are_listed(impl_def_id, items);
    if let Ok(d) = db.spec_definition(impl_def_id) {
        let f = lookup(db.facts.traits@, trait_id)->0;
        let impls = f.impls->Ok_0@;
        let required = f.required_item_names->Ok_0@;
        let special = special_impl_diagnostics(
            db,
            db.spec_impl_def_context(impl_def_id),
            concrete_trait,
            ast.stable_ptr,
        );
        let missing = missing_diagnostics(required, v.by_name, ast.name_ptr);
        assert(d.diagnostics == special + v.diagnostics + missing);
        assert forall|entry: (SmolStrId, TraitImplId)| #[trigger]
            d.implicit_impls.contains(entry) <==> impls.contains(entry) && !names_item(
                items,
                entry.0,
            ) by {
            law_implicit_impls_are_the_unnamed(impls, v.by_name, entry);
        }
        assert forall|x: DiagnosticView|
            special.contains(x) || v.diagnostics.contains(x) implies #[trigger]
        d.diagnostics.contains(x) by {
            crate::collections::lemma_concat_members(special, v.diagnostics, x);
            crate::collections::lemma_concat_members(special + v.diagnostics, missing, x);
        }
        law_missing_items_are_reported(required, v.by_name, ast.name_ptr);
        lemma_items_say_nothing_missing(impl_def_id, items);
        let n = special.len() + v.diagnostics.len();
        assert forall|k: int|
            0 <= k < d.diagnostics.len() && (#[trigger] d.diagnostics[k]).kind
                is MissingItemsInImpl implies k == n && missing.len() > 0 by {
            if k < special.len() {
                assert(d.diagnostics[k] == special[k]);
            } else if k < n {
                assert(d.diagnostics[k] == v.diagnostics[k - special.len()]);
            }
        }
        let names = missing_names(required, v.by_name);
        if missing.len() > 0 {
            assert(d.diagnostics[n as int] == missing[0]);
            assert(d.diagnostics[n as int].kind is MissingItemsInImpl);
            let name = choose|name: SmolStrId| #[trigger]
                required.contains(name) && !has_key(v.by_name, name);
            assert(!names_item(items, name));
        } else {
            assert forall|name: SmolStrId| #[trigger] required.contains(name) implies names_item(
                items,
                name,
            ) by {
                assert(has_key(v.by_name, name));
            }
        }
    }
}

/// Reading the items of a body says of no item that it is missing.
proof fn lemma_items_say_nothing_missing(impl_def_id: ImplDefId, items: Seq<ImplItem>)
    ensures
        forall|k: int|
            0 <= k < items_of(impl_def_id, items).diagnostics.len() ==> !((#[trigger] items_of(
                impl_def_id,
                items,
            ).diagnostics[k]).kind is MissingItemsInImpl),
    decreases items.len(),
{
    if items.len() > 0 {
        let init = items.drop_last();
        lemma_items_say_nothing_missing(impl_def_id, init);
        let v = items_of(impl_def_id, init);
        let w = items_of(impl_def_id, items);
        assert forall|k: int| 0 <= k < w.diagnostics.len() implies !((
        #[trigger] w.diagnostics[k]).kind is MissingItemsInImpl) by {
            if k < v.diagnostics.len() {
                assert(w.diagnostics[k] == v.diagnostics[k]);
            }
        }
    }
}

/// A keyword that opens no item of an impl is reported, at the keyword.
pub proof fn law_invalid_items_are_reported(
    impl_def_id: ImplDefId,
    items: Seq<ImplItem>,
    i: int,
    kw: Keyword,
)
    requires
        0 <= i < items.len(),
        items[i] == ImplItem::Module(kw) || items[i] == ImplItem::Use(kw) || items[i]
            == ImplItem::ExternFunction(kw) || items[i] == ImplItem::ExternType(kw) || items[i]
            == ImplItem::Trait(kw) || items[i] == ImplItem::Struct(kw) || items[i]
            == ImplItem::Enum(kw),
    ensures
        items_of(impl_def_id, items).diagnostics.contains(
            SemanticDiagnostic {
                stable_ptr: kw.stable_ptr,
                kind: SemanticDiagnosticKind::InvalidImplItem(kw.text),
            },
        ),
    decreases items.len(),
{
    let init = items.drop_last();
    let v = items_of(impl_def_id, init);
    let w = items_of(impl_def_id, items);
    let said: DiagnosticView = diagnostic(
        kw.stable_ptr,
        SemanticDiagnosticKind::InvalidImplItem(kw.text),
    );
    if i < init.len() {
        assert(init[i] == items[i]);
        law_invalid_items_are_reported(impl_def_id, init, i, kw);
        let k = choose|k: int| 0 <= k < v.diagnostics.len() && v.diagnostics[k] == said;
        assert(w.diagnostics[k] == v.diagnostics[k]);
    } else {
        assert(w.diagnostics[v.diagnostics.len() as int] == said);
    }
}

/// Of the definition of an impl nothing is reported but what is wrong with an impl of `Copy` or
/// `Drop`, what is wrong with its items, and that items are missing.
pub proof fn law_definitions_report_nothing_else(
    db: SemanticGroup,
    impl_def_id: ImplDefId,
    ast: ItemImpl,
    concrete_trait: ConcreteTraitId,
    d: DefinitionView,
    x: DiagnosticView,
)
    requires
        is_written(db, impl_def_id, ast),
        db.spec_impl_def_concrete_trait(impl_def_id) == Ok::<_, DiagnosticAdded>(concrete_trait),
        db.spec_definition(impl_def_id) == Ok::<_, DiagnosticAdded>(d),
        d.diagnostics.contains(x),
    ensures
        special_impl_diagnostics(
            db,
            db.spec_impl_def_context(impl_def_id),
            concrete_trait,
            ast.stable_ptr,
        ).contains(x) || items_of(impl_def_id, written_items(ast)).diagnostics.contains(x)
            || x.kind is MissingItemsInImpl,
{
    let trait_id = db.spec_trait_long(concrete_trait).trait_id;
    let items = written_items(ast);
    let v = items_of(impl_def_id, items);
    assert(impl_items(impl_def_id, ast) == v);
    let f = lookup(db.facts.traits@, trait_id)->0;
    let required = f.required_item_names->Ok_0@;
    let special = special_impl_diagnostics(
        db,
        db.spec_impl_def_context(impl_def_id),
        concrete_trait,
        ast.stable_ptr,
    );
    let missing = missing_diagnostics(required, v.by_name, ast.name_ptr);
    assert(d.diagnostics == special + v.diagnostics + missing);
    crate::collections::lemma_concat_members(special, v.diagnostics, x);
    crate::collections::lemma_concat_members(special + v.diagnostics, missing, x);
}

} // verus!
