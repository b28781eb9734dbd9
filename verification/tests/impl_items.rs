use cairo_impls::collections::{OrderedHashMap, OrderedHashSet};
use cairo_impls::db::SemanticGroup;
use cairo_impls::declaration::{
    impl_def_attributes, impl_def_concrete_trait, impl_def_concrete_trait_cycle,
    impl_def_generic_params, impl_def_resolver_data, impl_def_substitution, impl_def_trait,
    impl_semantic_declaration_diagnostics,
};
use cairo_impls::definition::{check_special_impls, get_inner_types, priv_impl_definition_data};
use cairo_impls::context::ImplLookupContext;
use cairo_impls::definition_diagnostics::{
    add_type_based_diagnostics, impl_semantic_definition_diagnostics,
};
use cairo_impls::diagnostics::{
    Ambiguity, DiagnosticAdded, Diagnostics, InferenceError, ItemKind, ItemScope,
    OutsideDiagnostic, SemanticDiagnosticKind, SemanticDiagnostics, Severity,
};
use cairo_impls::facts::{
    AliasGenerics, BodyOutcome, ConcreteTraitConstantId, ConcreteTraitGenericFunctionId,
    ConcreteTraitImplId, ConstantItemFacts, ConstantOutcome, CoreInfo, DeclarationOutcome,
    EnvironmentId, ExprId, FunctionFacts, GenericsOutcome, ImplAliasOutcome, ImplDefFacts,
    ImplItemFacts, ImplicitImplId, ImplicitImplOutcome, ImplicitImplQuestion, ImplicitPrecedence,
    Inference, InlineConfiguration, Parameter, ResolvedConcreteItem, ResolverData, ResolverId,
    Signature, StatementId, TraitFacts, TraitOrImplContext, TypeAliasOutcome, TypeAtPlace, TypeInfo,
    TypeItemFacts, TypeQuestion,
};
use cairo_impls::functions::{
    impl_function_attributes, impl_function_body, impl_function_body_diagnostics,
    impl_function_declaration_diagnostics, impl_function_declaration_implicit_precedence,
    impl_function_declaration_implicits, impl_function_declaration_inline_config,
    impl_function_generic_params, impl_function_signature, impl_function_trait_function,
    priv_impl_function_body_data,
};
use cairo_impls::ids::{
    Attribute, ConcreteStructId, ConcreteTraitId, CrateId, GenericKind, GenericParamId, ImplDefId,
    ImplConstantDefId, ImplFunctionId, ImplImplDefId, ImplItemId, ImplTypeDefId, InferenceErrorId,
    ModuleFileId, ModuleId, SmolStrId, SubmoduleId, SyntaxStablePtrId, TraitConstantId,
    TraitFunctionId, TraitId, TraitImplId, TraitTypeId, TypeConstraints, TypeId, UseId,
};
use cairo_impls::implization::{
    impl_type_concrete_implized, trait_type_implized_by_context,
    trait_type_implized_by_context_cycle,
};
use cairo_impls::item_constants::{
    impl_constant_concrete_implized_type, impl_constant_concrete_implized_value,
    impl_constant_def_semantic_diagnostics, impl_constant_def_trait_constant,
    impl_constant_def_value, impl_constant_implized_by_context,
};
use cairo_impls::item_impls::{
    impl_impl_concrete_implized, impl_impl_def_impl, impl_impl_def_semantic_diagnostics,
    impl_impl_def_trait_impl, impl_impl_implized_by_context, implicit_impl_impl_impl,
    implicit_impl_impl_semantic_diagnostics,
};
use cairo_impls::item_types::{
    impl_type_def_attributes, impl_type_def_generic_params, impl_type_def_resolved_type,
    impl_type_def_resolved_type_cycle, impl_type_def_semantic_diagnostics,
    impl_type_def_trait_type,
};
use cairo_impls::model::{
    ConcreteImplLongId, ConcreteTraitLongId, ConcreteTypeId, ConstValue, GenericArgumentId,
    GenericParam, GenericParamConst, GenericParamImpl, GenericParamType, ImplConstantId,
    ImplImplId, ImplLongId, ImplTypeId, Mutability, TypeLongId,
};
use cairo_impls::selectors::{
    impl_all_used_uses, impl_constant_by_trait_constant, impl_function_by_trait_function,
    impl_functions, impl_impl_by_trait_impl, impl_impl_ids, impl_implicit_impl_by_name,
    impl_item_by_name, impl_type_by_id, impl_type_by_trait_type, impl_type_ids,
    is_implicit_impl_impl,
};
use cairo_impls::syntax::{
    FeatureKind, FunctionWithBody, ImplItem, ItemConstant, ItemFeature, ItemImpl, ItemImplAlias,
    ItemTypeAlias, Keyword,
};

// --- Ids ---

const AREA: SmolStrId = SmolStrId(10);
const UNIT: SmolStrId = SmolStrId(11);
const SIDES: SmolStrId = SmolStrId(12);
const INNER: SmolStrId = SmolStrId(13);

fn ptr(n: u64) -> SyntaxStablePtrId {
    SyntaxStablePtrId(n)
}

fn module(n: u64) -> ModuleId {
    ModuleId::Submodule(SubmoduleId(n))
}

fn core_trait(n: u64) -> TraitId {
    TraitId {
        module_file_id: ModuleFileId(ModuleId::CrateRoot(CrateId(0)), 0),
        stable_ptr: ptr(n),
    }
}

fn shape() -> TraitId {
    TraitId { module_file_id: ModuleFileId(module(1), 0), stable_ptr: ptr(100) }
}

fn marker() -> TraitId {
    TraitId { module_file_id: ModuleFileId(module(1), 0), stable_ptr: ptr(101) }
}

fn square() -> ImplDefId {
    ImplDefId { module_file_id: ModuleFileId(module(2), 0), stable_ptr: ptr(200) }
}

fn core_function(trait_id: TraitId, n: u64) -> TraitFunctionId {
    TraitFunctionId { trait_id, name: SmolStrId(n), stable_ptr: ptr(n) }
}

fn core_info() -> CoreInfo {
    CoreInfo {
        core_crate: CrateId(0),
        type_eq_trt: core_trait(1),
        fn_trt: core_trait(2),
        fn_once_trt: core_trait(3),
        felt252_dict_value_trt: core_trait(4),
        numeric_literal_trt: core_trait(5),
        string_literal_trt: core_trait(6),
        deref_trt: core_trait(7),
        deref_fn: core_function(core_trait(7), 90),
        deref_mut_trt: core_trait(8),
        deref_mut_fn: core_function(core_trait(8), 91),
        copy_trt: core_trait(9),
        drop_trt: core_trait(10),
        destruct_trt: core_trait(11),
        panic_destruct_trt: core_trait(12),
        output_name: SmolStrId(92),
    }
}

fn area_fn() -> TraitFunctionId {
    TraitFunctionId { trait_id: shape(), name: AREA, stable_ptr: ptr(110) }
}

fn unit_type() -> TraitTypeId {
    TraitTypeId { trait_id: shape(), name: UNIT, stable_ptr: ptr(111) }
}

fn sides_const() -> TraitConstantId {
    TraitConstantId { trait_id: shape(), name: SIDES, stable_ptr: ptr(112) }
}

fn inner_impl() -> TraitImplId {
    TraitImplId { trait_id: shape(), name: INNER, stable_ptr: ptr(113) }
}

fn square_area() -> ImplFunctionId {
    ImplFunctionId { impl_def_id: square(), name: AREA, stable_ptr: ptr(210) }
}

fn square_unit() -> ImplTypeDefId {
    ImplTypeDefId { impl_def_id: square(), name: UNIT, stable_ptr: ptr(220) }
}

fn square_sides() -> ImplConstantDefId {
    ImplConstantDefId { impl_def_id: square(), name: SIDES, stable_ptr: ptr(230) }
}

fn square_inner() -> ImplImplDefId {
    ImplImplDefId { impl_def_id: square(), name: INNER, stable_ptr: ptr(240) }
}

// --- Syntax ---

fn feature(n: u64) -> ItemFeature {
    ItemFeature { kind: FeatureKind(n), diagnostics: vec![] }
}

fn area_syntax() -> FunctionWithBody {
    FunctionWithBody {
        stable_ptr: ptr(210),
        name: AREA,
        name_ptr: ptr(211),
        signature_ptr: ptr(212),
        parameters_ptr: ptr(213),
        ret_ty_ptr: Some(ptr(214)),
        lbrace_ptr: ptr(215),
    }
}

fn unit_syntax(has_generic_params: bool) -> ItemTypeAlias {
    ItemTypeAlias {
        stable_ptr: ptr(220),
        name: UNIT,
        name_ptr: ptr(221),
        generic_params_ptr: ptr(222),
        has_generic_params,
    }
}

fn sides_syntax() -> ItemConstant {
    ItemConstant {
        stable_ptr: ptr(230),
        name: SIDES,
        name_ptr: ptr(231),
        type_clause_ptr: ptr(232),
    }
}

fn inner_syntax() -> ItemImplAlias {
    ItemImplAlias {
        stable_ptr: ptr(240),
        name: INNER,
        name_ptr: ptr(241),
        generic_params_ptr: ptr(242),
        has_generic_params: false,
    }
}

fn full_body() -> Vec<ImplItem> {
    vec![
        ImplItem::Function(area_syntax(), feature(1)),
        ImplItem::Type(unit_syntax(false), feature(2)),
        ImplItem::Constant(sides_syntax(), feature(3)),
    ]
}

// --- Facts ---

fn no_inference() -> Inference {
    Inference {
        types: OrderedHashMap::new(),
        concrete_traits: OrderedHashMap::new(),
        type_constraints: OrderedHashMap::new(),
    }
}

fn generics(generic_params: Vec<GenericParam>) -> GenericsOutcome {
    GenericsOutcome {
        generic_params,
        diagnostics: vec![],
        finalize_diagnostics: vec![],
        inference: no_inference(),
        resolver_id: ResolverId(1),
        params_as_args: vec![],
    }
}

fn resolver(n: u64) -> ResolverData {
    ResolverData { id: ResolverId(n), trait_or_impl_ctx: TraitOrImplContext::Impl(square()) }
}

fn outside(n: u64, severity: Severity) -> OutsideDiagnostic {
    OutsideDiagnostic { stable_ptr: ptr(n), code: n, severity }
}

fn trait_facts(name: &str) -> TraitFacts {
    TraitFacts {
        name: name.to_string(),
        functions: Ok(OrderedHashMap::new()),
        types: Ok(OrderedHashMap::new()),
        constants: Ok(OrderedHashMap::new()),
        impls: Ok(OrderedHashMap::new()),
        required_item_names: Ok(OrderedHashSet::new()),
        generic_params: Ok(vec![]),
    }
}

fn shape_facts() -> TraitFacts {
    let mut functions = OrderedHashMap::new();
    functions.insert(AREA, area_fn());
    let mut types = OrderedHashMap::new();
    types.insert(UNIT, unit_type());
    let mut constants = OrderedHashMap::new();
    constants.insert(SIDES, sides_const());
    let mut impls = OrderedHashMap::new();
    impls.insert(INNER, inner_impl());
    let mut required = OrderedHashSet::new();
    required.insert(AREA);
    required.insert(UNIT);
    required.insert(SIDES);
    TraitFacts {
        functions: Ok(functions),
        types: Ok(types),
        constants: Ok(constants),
        impls: Ok(impls),
        required_item_names: Ok(required),
        ..trait_facts("Shape")
    }
}

fn impl_facts(trait_item: ResolvedConcreteItem, named: TraitId, body: Vec<ImplItem>) -> ImplDefFacts {
    ImplDefFacts {
        name: "Square".to_string(),
        full_path: "shapes::Square".to_string(),
        ast: Ok(Some(ItemImpl {
            stable_ptr: ptr(200),
            name_ptr: ptr(201),
            trait_path_ptr: ptr(202),
            attributes: vec![Attribute(5)],
            body: Some(body),
        })),
        feature_diagnostics: vec![],
        generics: generics(vec![]),
        named_trait: Ok(named),
        declaration: DeclarationOutcome {
            trait_item: Ok(trait_item),
            trait_diagnostics: vec![],
            finalize_diagnostics: vec![],
            inference: no_inference(),
            resolver_id: ResolverId(2),
        },
    }
}

/// Types: 0 is the empty tuple, 1 a struct, 2 the pair of both. Traits: 0 is `Shape`, 1 `Marker`.
fn base() -> SemanticGroup {
    let mut db = SemanticGroup::new(core_info());
    let unit = db.intern_type(TypeLongId::Tuple(vec![]));
    let side = db.intern_type(TypeLongId::Concrete(ConcreteTypeId::Struct(ConcreteStructId(0))));
    db.intern_type(TypeLongId::Tuple(vec![unit, side]));
    db.intern_concrete_trait(ConcreteTraitLongId { trait_id: shape(), generic_args: vec![] });
    db.intern_concrete_trait(ConcreteTraitLongId { trait_id: marker(), generic_args: vec![] });
    db.facts.traits.insert(shape(), shape_facts());
    db.facts.traits.insert(marker(), trait_facts("Marker"));
    db.facts.struct_members.insert(ConcreteStructId(0), Ok(vec![TypeId(0)]));
    db
}

const SHAPE_TRAIT: ConcreteTraitId = ConcreteTraitId(0);
const MARKER_TRAIT: ConcreteTraitId = ConcreteTraitId(1);

fn with_body(body: Vec<ImplItem>) -> SemanticGroup {
    let mut db = base();
    let facts = impl_facts(ResolvedConcreteItem::Trait(SHAPE_TRAIT), shape(), body);
    db.facts.impl_defs.insert(square(), facts);
    db
}

fn parameter(name: u64, ty: TypeId, mutability: Mutability) -> Parameter {
    Parameter {
        name: SmolStrId(name),
        ty,
        mutability,
        name_ptr: ptr(300 + name),
        modifiers_ptr: ptr(400 + name),
        type_ptr: ptr(500 + name),
    }
}

fn signature(params: Vec<Parameter>, return_type: TypeId) -> Signature {
    Signature { params, return_type, implicits: vec![TypeId(2)], panicable: false, is_const: false }
}

fn function_facts(signature: Signature, params: Vec<GenericParam>) -> FunctionFacts {
    FunctionFacts {
        generics: generics(params),
        feature_diagnostics: vec![],
        signature,
        signature_diagnostics: vec![],
        environment: EnvironmentId(1),
        attributes: vec![Attribute(8)],
        implicit_precedence: ImplicitPrecedence(3),
        precedence_diagnostics: vec![],
        finalize_diagnostics: vec![],
        inference: no_inference(),
        inline_config: Ok(InlineConfiguration(2)),
        inline_diagnostics: vec![],
        inline_always_diagnostics: vec![],
        resolver_id: ResolverId(9),
        own_args: Ok(vec![]),
        body: Ok(BodyOutcome {
            body_expr: ExprId(4),
            exprs: vec![(ptr(600), ExprId(4)), (ptr(601), ExprId(5))],
            patterns: vec![],
            statements: vec![StatementId(6)],
            diagnostics: vec![outside(602, Severity::Warning)],
            resolver_id: ResolverId(10),
        }),
    }
}

/// The area function with a signature and generics of its own, next to those of the trait.
fn with_functions(
    actual: Signature,
    expected: Signature,
    actual_params: Vec<GenericParam>,
    expected_params: Vec<GenericParam>,
) -> SemanticGroup {
    let mut db = with_body(full_body());
    db.facts.functions.insert(square_area(), function_facts(actual, actual_params));
    let key = ConcreteTraitGenericFunctionId {
        concrete_trait: SHAPE_TRAIT,
        trait_function_id: area_fn(),
    };
    db.facts.trait_function_signatures.insert(key, Ok(expected));
    db.facts.trait_function_params.insert(key, Ok(expected_params));
    db
}

// --- Reports ---

/// The places and the kinds of diagnostics.
fn reports(diagnostics: &Diagnostics) -> Vec<(u64, String)> {
    diagnostics
        .entries
        .iter()
        .map(|d| {
            let text = format!("{:?}", d.kind);
            let end = text.find(|c: char| !c.is_alphanumeric()).unwrap_or(text.len());
            (d.stable_ptr.0, text[..end].to_string())
        })
        .collect()
}

fn report(place: u64, kind: &str) -> (u64, String) {
    (place, kind.to_string())
}

fn compared(
    actual: Signature,
    expected: Signature,
    actual_params: Vec<GenericParam>,
    expected_params: Vec<GenericParam>,
) -> Vec<(u64, String)> {
    let mut db = with_functions(actual, expected, actual_params, expected_params);
    reports(&impl_function_declaration_diagnostics(&mut db, square_area()))
}

fn param_id(n: u64, name: Option<u64>, kind: GenericKind) -> GenericParamId {
    GenericParamId {
        module_file_id: ModuleFileId(module(2), 0),
        stable_ptr: ptr(n),
        kind,
        name: name.map(SmolStrId),
    }
}

fn type_param(n: u64, name: u64) -> GenericParam {
    GenericParam::Type(GenericParamType { id: param_id(n, Some(name), GenericKind::Type) })
}

fn impl_param(n: u64, concrete_trait: ConcreteTraitId) -> GenericParam {
    GenericParam::Impl(GenericParamImpl {
        id: param_id(n, None, GenericKind::Impl),
        concrete_trait: Ok(concrete_trait),
        type_constraints: TypeConstraints(0),
    })
}

fn const_param(n: u64, ty: TypeId) -> GenericParam {
    GenericParam::Const(GenericParamConst { id: param_id(n, None, GenericKind::Const), ty })
}

// --- Declarations ---

#[test]
fn declarations_name_their_trait() {
    let mut db = with_body(full_body());
    assert_eq!(impl_def_concrete_trait(&db, square()), Ok(SHAPE_TRAIT));
    assert_eq!(impl_def_trait(&db, square()), Ok(shape()));
    assert_eq!(impl_def_attributes(&db, square()), Ok(vec![Attribute(5)]));
    assert_eq!(impl_def_generic_params(&db, square()), Ok(vec![]));
    assert_eq!(impl_def_resolver_data(&db, square()), Ok(resolver(2)));
    assert!(impl_semantic_declaration_diagnostics(&db, square()).entries.is_empty());
    match impl_def_substitution(&mut db, square()) {
        Ok(s) => {
            assert_eq!(s.param_to_arg.len(), 0);
            let imp = match s.self_impl {
                Some(imp) => imp,
                None => panic!("no impl"),
            };
            match db.impl_long(imp) {
                ImplLongId::Concrete(c) => {
                    assert_eq!(db.concrete_impl_long(c).impl_def_id, square());
                }
                _ => panic!("no concrete impl"),
            }
        }
        Err(_) => panic!("no substitution"),
    }
}

#[test]
fn unknown_impls_have_no_declaration() {
    let db = base();
    assert_eq!(impl_def_concrete_trait(&db, square()), Err(DiagnosticAdded));
    assert_eq!(impl_def_trait(&db, square()), Err(DiagnosticAdded));
    assert!(impl_semantic_declaration_diagnostics(&db, square()).entries.is_empty());
}

#[test]
fn paths_that_are_no_trait_are_reported() {
    let mut db = base();
    let facts = impl_facts(ResolvedConcreteItem::Other(4), shape(), vec![]);
    db.facts.impl_defs.insert(square(), facts);
    let diagnostics = impl_semantic_declaration_diagnostics(&db, square());
    assert_eq!(reports(&diagnostics), vec![report(202, "NotATrait")]);
    assert_eq!(impl_def_concrete_trait(&db, square()), Err(DiagnosticAdded));
}

#[test]
fn cyclic_declarations_are_reported() {
    let mut db = with_body(full_body());
    db.facts.cycles.declarations.insert(square());
    let diagnostics = impl_semantic_declaration_diagnostics(&db, square());
    assert_eq!(reports(&diagnostics), vec![report(202, "ImplRequirementCycle")]);
    assert_eq!(impl_def_concrete_trait_cycle(&db, square()), Err(DiagnosticAdded));
}

#[test]
fn compiler_traits_are_reserved_for_the_core_library() {
    let mut db = base();
    let id = db.intern_concrete_trait(ConcreteTraitLongId {
        trait_id: core_trait(2),
        generic_args: vec![],
    });
    let facts = impl_facts(ResolvedConcreteItem::Trait(id), core_trait(2), vec![]);
    db.facts.impl_defs.insert(square(), facts);
    let diagnostics = impl_semantic_declaration_diagnostics(&db, square());
    assert_eq!(reports(&diagnostics), vec![report(202, "CompilerTraitReImplementation")]);
    db.facts.submodule_crates.insert(SubmoduleId(2), CrateId(0));
    assert!(impl_semantic_declaration_diagnostics(&db, square()).entries.is_empty());
}

// --- Definitions ---

#[test]
fn items_are_listed_by_kind_and_name() {
    let db = with_body(full_body());
    let data = match priv_impl_definition_data(&db, square()) {
        Ok(data) => data,
        Err(_) => panic!("no definition"),
    };
    assert!(data.diagnostics.entries.is_empty());
    assert_eq!(data.function_asts.get(&square_area()), Some(&area_syntax()));
    assert_eq!(data.item_type_asts.get(&square_unit()), Some(&unit_syntax(false)));
    assert_eq!(data.item_constant_asts.get(&square_sides()), Some(&sides_syntax()));
    assert_eq!(data.item_impl_asts.len(), 0);
    match data.get_impl_item_info(UNIT) {
        Some(info) => {
            assert_eq!(info.id, ImplItemId::Type(square_unit()));
            assert_eq!(*info.feature_kind(), FeatureKind(2));
        }
        None => panic!("no item"),
    }
    assert_eq!(data.implicit_impls_id_by_name.get(&INNER), Some(&inner_impl()));
}

#[test]
fn duplicate_names_are_reported_where_they_come_again() {
    let mut body = full_body();
    body.push(ImplItem::Type(
        ItemTypeAlias { stable_ptr: ptr(250), name_ptr: ptr(251), ..unit_syntax(false) },
        feature(2),
    ));
    let db = with_body(body);
    let data = priv_impl_definition_data(&db, square()).ok().unwrap();
    assert_eq!(reports(&data.diagnostics), vec![report(251, "NameDefinedMultipleTimes")]);
    assert_eq!(impl_type_ids(&db, square()).map(|ids| ids.len()), Ok(2));
}

#[test]
fn the_last_of_several_items_keeps_the_name() {
    let mut body = full_body();
    for n in [250, 260] {
        body.push(ImplItem::Type(
            ItemTypeAlias { stable_ptr: ptr(n), name_ptr: ptr(n + 1), ..unit_syntax(false) },
            feature(n),
        ));
    }
    let db = with_body(body);
    let data = priv_impl_definition_data(&db, square()).ok().unwrap();
    assert_eq!(
        reports(&data.diagnostics),
        vec![report(251, "NameDefinedMultipleTimes"), report(261, "NameDefinedMultipleTimes")]
    );
    let info = data.get_impl_item_info(UNIT).unwrap();
    let last = ImplTypeDefId { stable_ptr: ptr(260), ..square_unit() };
    assert_eq!(info.id, ImplItemId::Type(last));
    assert_eq!(*info.feature_kind(), FeatureKind(260));
    for n in 0..data.item_type_asts.len() {
        assert!(data.get_impl_item_info(data.item_type_asts.entry_at(n).0.name).is_some());
    }
}

#[test]
fn missing_items_are_reported_at_the_name() {
    let db = with_body(vec![ImplItem::Type(unit_syntax(false), feature(2)), ImplItem::Missing]);
    let data = priv_impl_definition_data(&db, square()).ok().unwrap();
    assert_eq!(reports(&data.diagnostics), vec![report(201, "MissingItemsInImpl")]);
    match &data.diagnostics.entries[0].kind {
        SemanticDiagnosticKind::MissingItemsInImpl(names) => {
            assert_eq!(*names, vec![AREA, SIDES]);
        }
        _ => panic!("another diagnostic"),
    }
}

#[test]
fn invalid_items_are_reported_at_their_keywords() {
    let mut body = full_body();
    let keyword = |n: u64| Keyword { stable_ptr: ptr(n), text: SmolStrId(n) };
    body.push(ImplItem::Module(keyword(700)));
    body.push(ImplItem::Use(keyword(701)));
    body.push(ImplItem::ExternFunction(keyword(702)));
    body.push(ImplItem::ExternType(keyword(703)));
    body.push(ImplItem::Trait(keyword(704)));
    body.push(ImplItem::Struct(keyword(705)));
    body.push(ImplItem::Enum(keyword(706)));
    let db = with_body(body);
    let data = priv_impl_definition_data(&db, square()).ok().unwrap();
    let expected: Vec<(u64, String)> = (700..707).map(|n| report(n, "InvalidImplItem")).collect();
    assert_eq!(reports(&data.diagnostics), expected);
}

#[test]
fn inner_types_are_those_of_members() {
    let db = base();
    assert_eq!(get_inner_types(&db, TypeId(1)), Ok(vec![TypeId(0)]));
    assert_eq!(get_inner_types(&db, TypeId(2)), Ok(vec![TypeId(0), TypeId(1)]));
}

#[test]
fn copy_impls_need_copyable_members() {
    let mut db = base();
    let copy = db.intern_concrete_trait(ConcreteTraitLongId {
        trait_id: core_trait(9),
        generic_args: vec![GenericArgumentId::Type(TypeId(1))],
    });
    let drop = db.intern_concrete_trait(ConcreteTraitLongId {
        trait_id: core_trait(10),
        generic_args: vec![GenericArgumentId::Type(TypeId(1))],
    });
    let context = || ImplLookupContext::new(module(2), vec![]);
    let mut diagnostics = SemanticDiagnostics::new();
    assert!(check_special_impls(&db, &mut diagnostics, context(), copy, ptr(1)).is_ok());
    let error = InferenceError::Other(InferenceErrorId(3));
    db.facts.type_infos.insert(
        TypeQuestion { lookup_context: context(), ty: TypeId(0) },
        TypeInfo { copyable: Err(error), droppable: Err(error) },
    );
    assert!(check_special_impls(&db, &mut diagnostics, context(), copy, ptr(1)).is_err());
    assert!(check_special_impls(&db, &mut diagnostics, context(), drop, ptr(2)).is_err());
    assert!(check_special_impls(&db, &mut diagnostics, context(), SHAPE_TRAIT, ptr(3)).is_ok());
    assert_eq!(
        reports(&diagnostics.build()),
        vec![report(1, "InvalidCopyTraitImpl"), report(2, "InvalidDropTraitImpl")]
    );
}

// --- Selectors ---

#[test]
fn items_are_found_by_trait_items() {
    let db = with_body(full_body());
    assert_eq!(
        impl_function_by_trait_function(&db, square(), area_fn()),
        Ok(Some(square_area()))
    );
    assert_eq!(impl_type_by_trait_type(&db, square(), unit_type()), Ok(square_unit()));
    assert_eq!(impl_type_by_id(&db, square_unit()), Ok(Some(unit_syntax(false))));
    assert_eq!(
        impl_constant_by_trait_constant(&db, square(), sides_const()),
        Ok(square_sides())
    );
    assert_eq!(impl_item_by_name(&db, square(), AREA), Ok(Some(ImplItemId::Function(square_area()))));
    assert_eq!(impl_item_by_name(&db, square(), INNER), Ok(None));
    match impl_functions(&db, square()) {
        Ok(functions) => assert_eq!(functions.get(&AREA), Some(&square_area())),
        Err(_) => panic!("no functions"),
    }
}

#[test]
fn unnamed_impls_are_implicit() {
    let db = with_body(full_body());
    assert_eq!(is_implicit_impl_impl(&db, square(), inner_impl()), Ok(true));
    assert_eq!(impl_implicit_impl_by_name(&db, square(), INNER), Ok(Some(inner_impl())));
    assert_eq!(impl_impl_ids(&db, square()), Ok(vec![]));
    let mut body = full_body();
    body.push(ImplItem::Impl(inner_syntax(), feature(4)));
    let db = with_body(body);
    assert_eq!(is_implicit_impl_impl(&db, square(), inner_impl()), Ok(false));
    assert_eq!(impl_implicit_impl_by_name(&db, square(), INNER), Ok(None));
    assert_eq!(impl_impl_by_trait_impl(&db, square(), inner_impl()), Ok(square_inner()));
}

#[test]
fn used_uses_are_those_of_the_impl_and_its_items() {
    let mut db = with_body(full_body());
    db.facts.used_uses.insert(ResolverId(2), vec![UseId(1), UseId(2)]);
    db.facts.used_uses.insert(ResolverId(50), vec![UseId(2), UseId(3)]);
    db.facts.item_resolver_data.insert(ImplItemId::Function(square_area()), vec![resolver(50)]);
    match impl_all_used_uses(&db, square()) {
        Ok(uses) => {
            assert!(uses.contains(&UseId(1)));
            assert!(uses.contains(&UseId(2)));
            assert!(uses.contains(&UseId(3)));
            assert_eq!(uses.len(), 3);
        }
        Err(_) => panic!("no uses"),
    }
}

// --- Types ---

fn type_item(resolved: TypeId) -> TypeItemFacts {
    let alias = |ty: TypeId| {
        Ok(TypeAliasOutcome {
            resolved_type: Ok(ty),
            attributes: vec![Attribute(6)],
            resolver_data: resolver(3),
            diagnostics: vec![],
        })
    };
    TypeItemFacts {
        generics: Ok(AliasGenerics {
            generic_params: vec![],
            diagnostics: vec![],
            resolver_data: resolver(4),
        }),
        alias: alias(resolved),
        alias_in_cycle: alias(TypeId(0)),
    }
}

#[test]
fn associated_types_are_resolved() {
    let mut db = with_body(full_body());
    db.facts.type_items.insert(square_unit(), type_item(TypeId(1)));
    assert_eq!(impl_type_def_resolved_type(&db, square_unit()), Ok(TypeId(1)));
    assert_eq!(impl_type_def_trait_type(&db, square_unit()), Ok(unit_type()));
    assert_eq!(impl_type_def_attributes(&db, square_unit()), Ok(vec![Attribute(6)]));
    assert_eq!(impl_type_def_generic_params(&db, square_unit()), Ok(vec![]));
    assert!(impl_type_def_semantic_diagnostics(&db, square_unit()).entries.is_empty());
    assert_eq!(trait_type_implized_by_context(&db, unit_type(), square()), Ok(TypeId(1)));
}

#[test]
fn cyclic_types_are_resolved_by_the_cycle_handler() {
    let mut db = with_body(full_body());
    db.facts.type_items.insert(square_unit(), type_item(TypeId(1)));
    db.facts.cycles.type_items.insert(square_unit());
    assert_eq!(impl_type_def_resolved_type_cycle(&db, square_unit()), Ok(TypeId(0)));
    let by_context = trait_type_implized_by_context_cycle(&db, unit_type(), square());
    assert_eq!(by_context, Ok(TypeId(0)));
}

#[test]
fn generic_types_are_reported() {
    let db_with = |ty: ItemTypeAlias| {
        let mut db = with_body(vec![ImplItem::Type(ty, feature(2))]);
        db.facts.type_items.insert(
            ImplTypeDefId { impl_def_id: square(), name: ty.name, stable_ptr: ty.stable_ptr },
            type_item(TypeId(1)),
        );
        db
    };
    let db = db_with(unit_syntax(true));
    let diagnostics = impl_type_def_semantic_diagnostics(&db, square_unit());
    assert_eq!(reports(&diagnostics), vec![report(222, "GenericsNotSupportedInItem")]);
    assert!(matches!(
        diagnostics.entries[0].kind,
        SemanticDiagnosticKind::GenericsNotSupportedInItem {
            scope: ItemScope::Impl,
            item_kind: ItemKind::Type
        }
    ));
    let other = ItemTypeAlias { name: SmolStrId(77), ..unit_syntax(false) };
    let id = ImplTypeDefId { impl_def_id: square(), name: SmolStrId(77), stable_ptr: ptr(220) };
    let db = db_with(other);
    let diagnostics = impl_type_def_semantic_diagnostics(&db, id);
    assert_eq!(reports(&diagnostics), vec![report(220, "ImplItemNotInTrait")]);
    assert_eq!(impl_type_def_trait_type(&db, id), Err(DiagnosticAdded));
}

#[test]
fn types_of_concrete_impls_are_looked_up() {
    let mut db = with_body(full_body());
    db.facts.type_items.insert(square_unit(), type_item(TypeId(1)));
    let c = db.intern_concrete_impl(ConcreteImplLongId {
        impl_def_id: square(),
        generic_args: vec![],
    });
    let imp = db.intern_impl(ImplLongId::Concrete(c));
    let id = ImplTypeId { impl_id: imp, ty: unit_type() };
    assert_eq!(impl_type_concrete_implized(&mut db, id), Ok(TypeId(1)));
    let own = db.intern_impl(ImplLongId::SelfImpl(SHAPE_TRAIT));
    let id = ImplTypeId { impl_id: own, ty: unit_type() };
    match impl_type_concrete_implized(&mut db, id) {
        Ok(ty) => assert!(matches!(db.type_long(ty), TypeLongId::ImplType(t) if *t == id)),
        Err(_) => panic!("no type"),
    }
}

// --- Constants ---

fn constant_item(db: &mut SemanticGroup, declared_type: TypeId) -> ConstantItemFacts {
    let value = db.intern_const_value(ConstValue::Other(4));
    let outcome = || {
        Ok(ConstantOutcome { const_value: value, resolver_data: resolver(5), diagnostics: vec![] })
    };
    ConstantItemFacts {
        declared_type,
        type_diagnostics: vec![],
        inference: no_inference(),
        constant: outcome(),
        constant_in_cycle: outcome(),
    }
}

fn with_constant(declared_type: TypeId) -> SemanticGroup {
    let mut db = with_body(full_body());
    let facts = constant_item(&mut db, declared_type);
    db.facts.constant_items.insert(square_sides(), facts);
    db.facts.trait_constant_types.insert(
        ConcreteTraitConstantId { concrete_trait: SHAPE_TRAIT, trait_constant_id: sides_const() },
        Ok(TypeId(1)),
    );
    db
}

#[test]
fn associated_constants_have_values() {
    let mut db = with_constant(TypeId(1));
    let value = db.intern_const_value(ConstValue::Other(4));
    assert_eq!(impl_constant_def_value(&db, square_sides()), Ok(value));
    assert_eq!(impl_constant_def_trait_constant(&db, square_sides()), Ok(sides_const()));
    assert!(impl_constant_def_semantic_diagnostics(&db, square_sides()).entries.is_empty());
    let c = db.intern_concrete_impl(ConcreteImplLongId {
        impl_def_id: square(),
        generic_args: vec![],
    });
    let impl_id = db.intern_impl(ImplLongId::Concrete(c));
    let id = ImplConstantId { impl_id, trait_constant_id: sides_const() };
    assert_eq!(impl_constant_implized_by_context(&db, id, square()), Ok(value));
    assert_eq!(impl_constant_concrete_implized_value(&mut db, id), Ok(value));
    db.facts.value_types.insert(value, Ok(TypeId(1)));
    assert_eq!(impl_constant_concrete_implized_type(&db, id), Ok(TypeId(1)));
}

#[test]
fn constants_of_another_type_are_reported() {
    let db = with_constant(TypeId(2));
    let diagnostics = impl_constant_def_semantic_diagnostics(&db, square_sides());
    assert_eq!(reports(&diagnostics), vec![report(232, "WrongType")]);
}

#[test]
fn constants_of_other_impls_stay_constants() {
    let mut db = with_constant(TypeId(1));
    let own = db.intern_impl(ImplLongId::SelfImpl(SHAPE_TRAIT));
    let id = ImplConstantId { impl_id: own, trait_constant_id: sides_const() };
    let constant = db.intern_const_value(ConstValue::ImplConstant(id));
    assert_eq!(impl_constant_concrete_implized_value(&mut db, id), Ok(constant));
}

// --- Impls ---

fn with_inner(resolved: ImplLongId) -> SemanticGroup {
    let mut body = full_body();
    body.push(ImplItem::Impl(inner_syntax(), feature(4)));
    let mut db = with_body(body);
    let imp = db.intern_impl(resolved);
    let alias = || {
        Ok(ImplAliasOutcome {
            resolved_impl: Ok(imp),
            resolver_data: resolver(6),
            diagnostics: vec![],
        })
    };
    db.facts.impl_items.insert(
        square_inner(),
        ImplItemFacts {
            generics: Ok(AliasGenerics {
                generic_params: vec![],
                diagnostics: vec![],
                resolver_data: resolver(7),
            }),
            alias: alias(),
            alias_in_cycle: alias(),
        },
    );
    db.facts.trait_impl_traits.insert(
        ConcreteTraitImplId { concrete_trait: SHAPE_TRAIT, trait_impl_id: inner_impl() },
        Ok(MARKER_TRAIT),
    );
    db
}

#[test]
fn associated_impls_are_resolved() {
    let mut db = with_inner(ImplLongId::SelfImpl(MARKER_TRAIT));
    let imp = db.intern_impl(ImplLongId::SelfImpl(MARKER_TRAIT));
    assert_eq!(impl_impl_def_impl(&mut db, square_inner(), false), Ok(imp));
    assert_eq!(impl_impl_def_trait_impl(&mut db, square_inner()), Ok(inner_impl()));
    assert!(impl_impl_def_semantic_diagnostics(&mut db, square_inner()).entries.is_empty());
    let c = db.intern_concrete_impl(ConcreteImplLongId {
        impl_def_id: square(),
        generic_args: vec![],
    });
    let impl_id = db.intern_impl(ImplLongId::Concrete(c));
    let id = ImplImplId { impl_id, trait_impl_id: inner_impl() };
    assert_eq!(impl_impl_implized_by_context(&mut db, id, square(), false), Ok(imp));
    assert_eq!(impl_impl_concrete_implized(&mut db, id), Ok(imp));
}

#[test]
fn associated_impls_of_another_trait_are_reported() {
    let mut db = with_inner(ImplLongId::SelfImpl(SHAPE_TRAIT));
    let diagnostics = impl_impl_def_semantic_diagnostics(&mut db, square_inner());
    assert_eq!(reports(&diagnostics), vec![report(240, "TraitMismatch")]);
}

#[test]
fn implicit_impls_are_inferred() {
    let mut db = with_body(full_body());
    let imp = db.intern_impl(ImplLongId::SelfImpl(MARKER_TRAIT));
    db.facts.trait_impl_traits.insert(
        ConcreteTraitImplId { concrete_trait: SHAPE_TRAIT, trait_impl_id: inner_impl() },
        Ok(MARKER_TRAIT),
    );
    let question =
        ImplicitImplQuestion { impl_def_id: square(), concrete_trait_id: MARKER_TRAIT };
    db.facts.implicit_impls.insert(question, ImplicitImplOutcome::Found(imp));
    assert_eq!(implicit_impl_impl_impl(&mut db, square(), inner_impl(), false), Ok(imp));
    db.facts.implicit_impls.insert(
        question,
        ImplicitImplOutcome::NotInferred(vec![outside(800, Severity::Error)]),
    );
    let diagnostics = implicit_impl_impl_semantic_diagnostics(&mut db, square(), inner_impl());
    let kinds: Vec<String> = reports(&diagnostics).into_iter().map(|r| r.1).collect();
    assert!(kinds.contains(&"ImplicitImplNotInferred".to_string()));
    assert_eq!(
        implicit_impl_impl_impl(&mut db, square(), inner_impl(), false),
        Err(DiagnosticAdded)
    );
}

#[test]
fn cyclic_implicit_impls_are_reported() {
    let mut db = with_body(full_body());
    db.facts.trait_impl_traits.insert(
        ConcreteTraitImplId { concrete_trait: SHAPE_TRAIT, trait_impl_id: inner_impl() },
        Ok(MARKER_TRAIT),
    );
    db.facts
        .cycles
        .implicit_impls
        .insert(ImplicitImplId { impl_def_id: square(), trait_impl_id: inner_impl() });
    let diagnostics = implicit_impl_impl_semantic_diagnostics(&mut db, square(), inner_impl());
    assert_eq!(reports(&diagnostics), vec![report(200, "ImplAliasCycle")]);
}

// --- Functions ---

#[test]
fn matching_functions_are_accepted() {
    let params = || vec![parameter(1, TypeId(1), Mutability::Immutable)];
    let mut db = with_functions(
        signature(params(), TypeId(0)),
        signature(params(), TypeId(0)),
        vec![],
        vec![],
    );
    assert!(impl_function_declaration_diagnostics(&mut db, square_area()).entries.is_empty());
    assert_eq!(impl_function_trait_function(&mut db, square_area()), Ok(area_fn()));
    assert_eq!(impl_function_attributes(&mut db, square_area()), Ok(vec![Attribute(8)]));
    assert_eq!(impl_function_generic_params(&db, square_area()), Ok(vec![]));
    assert_eq!(
        impl_function_declaration_inline_config(&mut db, square_area()),
        Ok(InlineConfiguration(2))
    );
    assert_eq!(
        impl_function_declaration_implicit_precedence(&mut db, square_area()),
        Ok(ImplicitPrecedence(3))
    );
    assert_eq!(impl_function_declaration_implicits(&mut db, square_area()), Ok(vec![TypeId(2)]));
    match impl_function_signature(&mut db, square_area()) {
        Ok(signature) => {
            assert_eq!(signature.return_type, TypeId(0));
            assert_eq!(signature.params.len(), 1);
        }
        Err(_) => panic!("no signature"),
    }
}

#[test]
fn parameters_are_compared_one_by_one() {
    let actual = signature(
        vec![
            parameter(1, TypeId(0), Mutability::Immutable),
            parameter(2, TypeId(1), Mutability::Reference),
            parameter(3, TypeId(1), Mutability::Immutable),
        ],
        TypeId(0),
    );
    let expected = signature(
        vec![
            parameter(1, TypeId(1), Mutability::Immutable),
            parameter(2, TypeId(1), Mutability::Immutable),
            parameter(4, TypeId(1), Mutability::Reference),
        ],
        TypeId(0),
    );
    let kinds: Vec<(u64, String)> = compared(actual, expected, vec![], vec![]);
    assert_eq!(
        kinds,
        vec![
            report(501, "WrongParameterType"),
            report(402, "ParameterShouldNotBeReference"),
            report(403, "ParameterShouldBeReference"),
            report(303, "WrongParameterName"),
        ]
    );
}

#[test]
fn the_number_of_parameters_is_compared() {
    let actual = signature(vec![], TypeId(0));
    let expected = signature(vec![parameter(1, TypeId(1), Mutability::Immutable)], TypeId(0));
    assert_eq!(
        compared(actual, expected, vec![], vec![]),
        vec![report(213, "WrongNumberOfParameters")]
    );
}

#[test]
fn return_types_and_modifiers_are_compared() {
    let actual = Signature { panicable: true, ..signature(vec![], TypeId(1)) };
    let expected = Signature { is_const: true, ..signature(vec![], TypeId(0)) };
    assert_eq!(
        compared(actual, expected, vec![], vec![]),
        vec![
            report(212, "PassPanicAsNopanic"),
            report(212, "PassConstAsNonConst"),
            report(214, "WrongReturnTypeForImpl"),
        ]
    );
}

#[test]
fn generic_parameters_are_compared() {
    let plain = || signature(vec![], TypeId(0));
    assert_eq!(
        compared(plain(), plain(), vec![type_param(900, 1)], vec![]),
        vec![report(211, "WrongNumberOfGenericParamsForImplFunction")]
    );
    assert_eq!(
        compared(plain(), plain(), vec![type_param(900, 1)], vec![type_param(901, 2)]),
        vec![report(900, "WrongParameterName")]
    );
    assert_eq!(
        compared(
            plain(),
            plain(),
            vec![impl_param(900, MARKER_TRAIT)],
            vec![impl_param(901, SHAPE_TRAIT)]
        ),
        vec![report(900, "WrongGenericParamTraitForImplFunction")]
    );
    assert_eq!(
        compared(
            plain(),
            plain(),
            vec![const_param(900, TypeId(0))],
            vec![const_param(901, TypeId(1))]
        ),
        vec![report(900, "WrongParameterType")]
    );
    assert_eq!(
        compared(
            plain(),
            plain(),
            vec![impl_param(900, SHAPE_TRAIT)],
            vec![const_param(901, TypeId(1))]
        ),
        vec![report(900, "WrongGenericParamKindForImplFunction")]
    );
}

#[test]
fn functions_that_the_trait_lacks_are_reported() {
    let mut db = with_body(full_body());
    let other = ImplFunctionId {
        impl_def_id: square(),
        name: SmolStrId(77),
        stable_ptr: ptr(260),
    };
    let syntax = FunctionWithBody { stable_ptr: ptr(260), name: SmolStrId(77), ..area_syntax() };
    let mut body = full_body();
    body.push(ImplItem::Function(syntax, feature(1)));
    let facts = impl_facts(ResolvedConcreteItem::Trait(SHAPE_TRAIT), shape(), body);
    db.facts.impl_defs.insert(square(), facts);
    db.facts.functions.insert(other, function_facts(signature(vec![], TypeId(0)), vec![]));
    let diagnostics = impl_function_declaration_diagnostics(&mut db, other);
    assert_eq!(reports(&diagnostics), vec![report(260, "ImplItemNotInTrait")]);
    assert_eq!(impl_function_trait_function(&mut db, other), Err(DiagnosticAdded));
}

#[test]
fn bodies_are_computed() {
    let plain = || signature(vec![], TypeId(0));
    let mut db = with_functions(plain(), plain(), vec![], vec![]);
    match impl_function_body(&mut db, square_area()) {
        Ok(body) => {
            assert_eq!(body.body_expr, ExprId(4));
            assert_eq!(body.exprs.len(), 2);
            assert_eq!(body.statements, vec![StatementId(6)]);
        }
        Err(_) => panic!("no body"),
    }
    let diagnostics = impl_function_body_diagnostics(&mut db, square_area());
    assert_eq!(reports(&diagnostics), vec![report(602, "Outside")]);
    match priv_impl_function_body_data(&mut db, square_area()) {
        Ok(data) => {
            assert_eq!(data.expr_lookup.get(&ptr(601)), Some(&ExprId(5)));
            assert!(data.function_id.is_ok());
        }
        Err(_) => panic!("no body"),
    }
}

// --- All diagnostics of an impl ---

#[test]
fn types_are_checked_where_they_are_written() {
    let mut db = base();
    db.facts.type_diagnostics.insert(
        TypeAtPlace { ty: TypeId(1), stable_ptr: ptr(3) },
        vec![outside(3, Severity::Error)],
    );
    let mut diagnostics = SemanticDiagnostics::new();
    add_type_based_diagnostics(&db, &mut diagnostics, TypeId(1), ptr(3));
    add_type_based_diagnostics(&db, &mut diagnostics, TypeId(1), ptr(4));
    assert_eq!(reports(&diagnostics.build()), vec![report(3, "Outside")]);
}

#[test]
fn all_diagnostics_of_an_impl_are_gathered() {
    let params = || vec![parameter(1, TypeId(1), Mutability::Immutable)];
    let mut db = with_functions(
        signature(params(), TypeId(1)),
        signature(params(), TypeId(0)),
        vec![],
        vec![],
    );
    db.facts.type_items.insert(square_unit(), type_item(TypeId(1)));
    let facts = constant_item(&mut db, TypeId(2));
    db.facts.constant_items.insert(square_sides(), facts);
    db.facts.trait_constant_types.insert(
        ConcreteTraitConstantId { concrete_trait: SHAPE_TRAIT, trait_constant_id: sides_const() },
        Ok(TypeId(1)),
    );
    db.facts.trait_impl_traits.insert(
        ConcreteTraitImplId { concrete_trait: SHAPE_TRAIT, trait_impl_id: inner_impl() },
        Ok(MARKER_TRAIT),
    );
    let imp = db.intern_impl(ImplLongId::SelfImpl(MARKER_TRAIT));
    db.facts.implicit_impls.insert(
        ImplicitImplQuestion { impl_def_id: square(), concrete_trait_id: MARKER_TRAIT },
        ImplicitImplOutcome::Found(imp),
    );
    let diagnostics = impl_semantic_definition_diagnostics(&mut db, square());
    let found = reports(&diagnostics);
    assert!(found.contains(&report(214, "WrongReturnTypeForImpl")));
    assert!(found.contains(&report(232, "WrongType")));
    assert!(found.contains(&report(602, "Outside")));
    assert_eq!(found.len(), 3);
}

#[test]
fn other_items_that_the_trait_lacks_are_reported() {
    let constant = ItemConstant { name: SmolStrId(78), ..sides_syntax() };
    let inner = ItemImplAlias { name: SmolStrId(79), ..inner_syntax() };
    let mut db = with_body(vec![
        ImplItem::Constant(constant, feature(3)),
        ImplItem::Impl(inner, feature(4)),
    ]);
    let constant_id = ImplConstantDefId { name: SmolStrId(78), ..square_sides() };
    let impl_id = ImplImplDefId { name: SmolStrId(79), ..square_inner() };
    let facts = constant_item(&mut db, TypeId(1));
    db.facts.constant_items.insert(constant_id, facts);
    let imp = db.intern_impl(ImplLongId::SelfImpl(MARKER_TRAIT));
    let alias = || {
        Ok(ImplAliasOutcome {
            resolved_impl: Ok(imp),
            resolver_data: resolver(6),
            diagnostics: vec![],
        })
    };
    db.facts.impl_items.insert(
        impl_id,
        ImplItemFacts {
            generics: Ok(AliasGenerics {
                generic_params: vec![],
                diagnostics: vec![],
                resolver_data: resolver(7),
            }),
            alias: alias(),
            alias_in_cycle: alias(),
        },
    );
    let diagnostics = impl_constant_def_semantic_diagnostics(&db, constant_id);
    assert_eq!(reports(&diagnostics), vec![report(230, "ImplItemNotInTrait")]);
    assert_eq!(impl_constant_def_trait_constant(&db, constant_id), Err(DiagnosticAdded));
    let diagnostics = impl_impl_def_semantic_diagnostics(&mut db, impl_id);
    assert_eq!(reports(&diagnostics), vec![report(240, "ImplItemNotInTrait")]);
    assert_eq!(impl_impl_def_trait_impl(&mut db, impl_id), Err(DiagnosticAdded));
}

#[test]
fn several_impls_for_a_member_are_no_obstacle() {
    let mut db = base();
    let copy = db.intern_concrete_trait(ConcreteTraitLongId {
        trait_id: core_trait(9),
        generic_args: vec![GenericArgumentId::Type(TypeId(1))],
    });
    let context = || ImplLookupContext::new(module(2), vec![]);
    let error =
        InferenceError::Ambiguity(Ambiguity::MultipleImplsFound(InferenceErrorId(3)));
    db.facts.type_infos.insert(
        TypeQuestion { lookup_context: context(), ty: TypeId(0) },
        TypeInfo { copyable: Err(error), droppable: Ok(()) },
    );
    let mut diagnostics = SemanticDiagnostics::new();
    assert!(check_special_impls(&db, &mut diagnostics, context(), copy, ptr(1)).is_ok());
    let other = InferenceError::Ambiguity(Ambiguity::Other(InferenceErrorId(3)));
    db.facts.type_infos.insert(
        TypeQuestion { lookup_context: context(), ty: TypeId(0) },
        TypeInfo { copyable: Err(other), droppable: Ok(()) },
    );
    assert!(check_special_impls(&db, &mut diagnostics, context(), copy, ptr(1)).is_err());
}

#[test]
fn declarations_stay_as_more_is_interned() {
    let params = || vec![parameter(1, TypeId(1), Mutability::Immutable)];
    let mut db = with_functions(
        signature(params(), TypeId(1)),
        signature(params(), TypeId(0)),
        vec![],
        vec![],
    );
    let before = reports(&impl_function_declaration_diagnostics(&mut db, square_area()));
    let first = impl_def_substitution(&mut db, square()).ok().unwrap().self_impl;
    db.intern_type(TypeLongId::Snapshot(TypeId(1)));
    db.intern_impl(ImplLongId::SelfImpl(MARKER_TRAIT));
    let after = reports(&impl_function_declaration_diagnostics(&mut db, square_area()));
    assert_eq!(before, after);
    assert_eq!(impl_def_substitution(&mut db, square()).ok().unwrap().self_impl, first);
}
