use std::cmp::Ordering;

use cairo_impls::candidates::{
    concrete_trait_fits_trait_filter, find_candidates_at_context, impl_impl_ids_for_trait_filter,
    impl_impl_ids_for_trait_filter_cycle, module_impl_ids, module_impl_ids_for_trait_filter,
    module_impl_ids_for_trait_filter_cycle, GenericsHeadFilter, TraitFilter,
};
use cairo_impls::closures::find_closure_generated_candidate;
use cairo_impls::collections::{OrderedHashMap, OrderedHashSet};
use cairo_impls::context::{ImplLookupContext, ImplOrModuleById};
use cairo_impls::db::SemanticGroup;
use cairo_impls::definition_diagnostics::impl_semantic_definition_diagnostics;
use cairo_impls::deref::{deref_chain, deref_chain_cycle, try_get_deref_func_and_target};
use cairo_impls::deref_diagnostics::{
    deref_impl_diagnostics, get_impl_based_on_single_impl_type,
};
use cairo_impls::diagnostics::{
    DiagnosticAdded, InferenceError, OutsideDiagnostic, SemanticDiagnosticKind,
    SemanticDiagnostics, Severity,
};
use cairo_impls::facts::{
    AliasGenerics, ConcreteTraitGenericFunctionId, ConcreteTraitImplId, CoreInfo,
    DeclarationOutcome, GenericParamFacts, GenericsOutcome, ImplAliasFacts, ImplDefFacts,
    ImplQuestion, Inference, ModuleFacts, ModuleItemId, ModuleItemInfo, ResolvedConcreteItem,
    ResolvedGenericItem, ResolverData, ResolverId, TraitFacts, TraitOrImplContext,
    TypeAliasOutcome, TypeItemFacts, Visibility, VisibilityQuestion,
};
use cairo_impls::ids::{
    ConcreteStructId, ConcreteTraitId, CrateId, GenericArgumentHead, GenericKind, GenericParamId,
    ImplAliasId, ImplDefId, ImplId, ImplTypeDefId, InferenceErrorId, ModuleFileId, ModuleId,
    SmolStrId, SubmoduleId, SyntaxStablePtrId, TraitFunctionId, TraitId, TraitImplId, TraitTypeId,
    TypeConstraints, TypeId, UninferredGeneratedImplId, UseId,
};
use cairo_impls::implization::impl_type_concrete_implized;
use cairo_impls::impls::{
    impl_concrete_trait, impl_impl_concrete_trait, priv_impl_is_fully_concrete,
    priv_impl_is_var_free,
};
use cairo_impls::model::{
    ClosureTypeLongId, ConcreteImplLongId, ConcreteTraitLongId, ConcreteTypeId, GenericArgumentId,
    GeneratedImplItems, GeneratedImplLongId, GenericFunctionId, GenericParam, GenericParamImpl,
    GenericParamType, ImplHead, ImplImplId, ImplLongId, ImplTypeId, ImplVarId, Mutability,
    TypeLongId, UninferredImpl,
};
use cairo_impls::self_inference::{
    can_infer_impl_by_self, filter_candidate_traits, infer_impl_by_self, ComputationContext,
    GenericArg, GenericArgsAnswer, GenericArgsQuestion, SelfAnswer, SelfQuestion, SolutionSet,
    TraitBySelf,
};
use cairo_impls::syntax::{FeatureKind, ImplItem, ItemFeature, ItemImpl, ItemTypeAlias};

// --- Ids and facts ---

const TARGET: SmolStrId = SmolStrId(20);
const OUTPUT: SmolStrId = SmolStrId(92);

fn ptr(n: u64) -> SyntaxStablePtrId {
    SyntaxStablePtrId(n)
}

fn module(n: u64) -> ModuleId {
    ModuleId::Submodule(SubmoduleId(n))
}

fn core_trait(n: u64) -> TraitId {
    TraitId {
        module_file_id: ModuleFileId(ModuleId::CrateRoot(CrateId(0)), 0),
        stable_ptr: ptr(n),
    }
}

fn own_trait(n: u64) -> TraitId {
    TraitId { module_file_id: ModuleFileId(module(1), 0), stable_ptr: ptr(100 + n) }
}

fn impl_def(n: u64) -> ImplDefId {
    ImplDefId { module_file_id: ModuleFileId(module(1), 0), stable_ptr: ptr(200 + n) }
}

fn function(trait_id: TraitId, n: u64) -> TraitFunctionId {
    TraitFunctionId { trait_id, name: SmolStrId(n), stable_ptr: ptr(n) }
}

fn core_info() -> CoreInfo {
    CoreInfo {
        core_crate: CrateId(0),
        type_eq_trt: core_trait(1),
        fn_trt: core_trait(2),
        fn_once_trt: core_trait(3),
        felt252_dict_value_trt: core_trait(4),
        numeric_literal_trt: core_trait(5),
        string_literal_trt: core_trait(6),
        deref_trt: core_trait(7),
        deref_fn: function(core_trait(7), 90),
        deref_mut_trt: core_trait(8),
        deref_mut_fn: function(core_trait(8), 91),
        copy_trt: core_trait(9),
        drop_trt: core_trait(10),
        destruct_trt: core_trait(11),
        panic_destruct_trt: core_trait(12),
        output_name: OUTPUT,
    }
}

fn no_inference() -> Inference {
    Inference {
        types: OrderedHashMap::new(),
        concrete_traits: OrderedHashMap::new(),
        type_constraints: OrderedHashMap::new(),
    }
}

fn resolver(n: u64) -> ResolverData {
    ResolverData { id: ResolverId(n), trait_or_impl_ctx: TraitOrImplContext::Neither }
}

fn trait_facts(name: &str) -> TraitFacts {
    TraitFacts {
        name: name.to_string(),
        functions: Ok(OrderedHashMap::new()),
        types: Ok(OrderedHashMap::new()),
        constants: Ok(OrderedHashMap::new()),
        impls: Ok(OrderedHashMap::new()),
        required_item_names: Ok(OrderedHashSet::new()),
        generic_params: Ok(vec![]),
    }
}

fn param_id(n: u64, kind: GenericKind) -> GenericParamId {
    GenericParamId {
        module_file_id: ModuleFileId(module(1), 0),
        stable_ptr: ptr(n),
        kind,
        name: None,
    }
}

fn type_param(n: u64) -> GenericParam {
    GenericParam::Type(GenericParamType { id: param_id(n, GenericKind::Type) })
}

fn impl_facts(
    n: u64,
    trait_item: ConcreteTraitId,
    named: TraitId,
    body: Vec<ImplItem>,
) -> ImplDefFacts {
    ImplDefFacts {
        name: format!("Impl{n}"),
        full_path: format!("a::Impl{n}"),
        ast: Ok(Some(ItemImpl {
            stable_ptr: ptr(200 + n),
            name_ptr: ptr(300 + n),
            trait_path_ptr: ptr(400 + n),
            attributes: vec![],
            body: Some(body),
        })),
        feature_diagnostics: vec![],
        generics: GenericsOutcome {
            generic_params: vec![],
            diagnostics: vec![],
            finalize_diagnostics: vec![],
            inference: no_inference(),
            resolver_id: ResolverId(1),
            params_as_args: vec![],
        },
        named_trait: Ok(named),
        declaration: DeclarationOutcome {
            trait_item: Ok(ResolvedConcreteItem::Trait(trait_item)),
            trait_diagnostics: vec![],
            finalize_diagnostics: vec![],
            inference: no_inference(),
            resolver_id: ResolverId(2),
        },
    }
}

fn struct_type(db: &mut SemanticGroup, n: u64) -> TypeId {
    db.intern_type(TypeLongId::Concrete(ConcreteTypeId::Struct(ConcreteStructId(n))))
}

fn trait_of(db: &mut SemanticGroup, trait_id: TraitId, types: &[TypeId]) -> ConcreteTraitId {
    let generic_args = types.iter().map(|ty| GenericArgumentId::Type(*ty)).collect();
    db.intern_concrete_trait(ConcreteTraitLongId { trait_id, generic_args })
}

fn concrete(db: &mut SemanticGroup, def: ImplDefId, args: Vec<GenericArgumentId>) -> ImplId {
    let c = db.intern_concrete_impl(ConcreteImplLongId { impl_def_id: def, generic_args: args });
    db.intern_impl(ImplLongId::Concrete(c))
}

// --- Lookup contexts ---

#[test]
fn scopes_are_ordered() {
    let imp = ImplOrModuleById::Impl(ImplId(5));
    let later_imp = ImplOrModuleById::from(ImplId(6));
    let root = ImplOrModuleById::from(ModuleId::CrateRoot(CrateId(9)));
    let sub = ImplOrModuleById::Module(module(1));
    assert_eq!(imp.cmp(&later_imp), Ordering::Less);
    assert_eq!(later_imp.cmp(&imp), Ordering::Greater);
    assert_eq!(imp.cmp(&imp), Ordering::Equal);
    assert_eq!(later_imp.cmp(&root), Ordering::Less);
    assert_eq!(root.cmp(&sub), Ordering::Less);
    assert_eq!(sub.cmp(&root), Ordering::Greater);
    assert!(imp < sub);
}

#[test]
fn scopes_are_kept_sorted_and_once() {
    let mut context = ImplLookupContext::new(module(3), vec![]);
    assert!(context.insert_module(module(1)));
    assert!(!context.insert_module(module(3)));
    assert!(context.insert_impl(ImplId(8)));
    assert!(!context.insert_impl(ImplId(8)));
    let scopes: Vec<ImplOrModuleById> =
        (0..context.modules_and_impls.len()).map(|i| context.modules_and_impls.at(i)).collect();
    assert_eq!(
        scopes,
        vec![
            ImplOrModuleById::Impl(ImplId(8)),
            ImplOrModuleById::Module(module(1)),
            ImplOrModuleById::Module(module(3)),
        ]
    );
}

#[test]
fn candidates_add_their_scopes() {
    let mut context = ImplLookupContext::new(module(3), vec![]);
    context.insert_lookup_scope(&UninferredImpl::Def(impl_def(1)));
    context.insert_lookup_scope(&UninferredImpl::GeneratedImpl(UninferredGeneratedImplId(0)));
    let item = TraitImplId { trait_id: own_trait(1), name: SmolStrId(1), stable_ptr: ptr(1) };
    context.insert_lookup_scope(&UninferredImpl::ImplImpl(ImplImplId {
        impl_id: ImplId(4),
        trait_impl_id: item,
    }));
    assert_eq!(context.modules_and_impls.len(), 3);
    assert!(context.modules_and_impls.contains(&ImplOrModuleById::Module(module(1))));
    assert!(context.modules_and_impls.contains(&ImplOrModuleById::Impl(ImplId(4))));
}

// --- Impls ---

#[test]
fn impls_have_names_and_texts() {
    let mut db = SemanticGroup::new(core_info());
    let shape = trait_of(&mut db, own_trait(1), &[]);
    db.facts.names.insert(SmolStrId(1), "Inner".to_string());
    db.facts.trait_texts.insert(shape, "a::Shape".to_string());
    db.facts.traits.insert(own_trait(1), trait_facts("Shape"));
    db.facts.impl_defs.insert(impl_def(1), impl_facts(1, shape, own_trait(1), vec![]));
    let imp = concrete(&mut db, impl_def(1), vec![]);
    let own = db.intern_impl(ImplLongId::SelfImpl(shape));
    let var = db.intern_impl(ImplLongId::ImplVar(ImplVarId { id: 17, concrete_trait_id: shape }));
    let item = TraitImplId { trait_id: own_trait(1), name: SmolStrId(1), stable_ptr: ptr(1) };
    let inner = ImplImplId::new(imp, item, &db);
    let inner_id = db.intern_impl(ImplLongId::ImplImpl(inner));
    assert_eq!(imp.name(&db), "Impl1");
    assert_eq!(imp.format(&db), "a::Impl1");
    assert_eq!(imp.debug(&db), "a::Impl1");
    assert_eq!(own.name(&db), "Shape");
    assert_eq!(own.format(&db), "a::Shape");
    assert_eq!(var.name(&db), "ImplVar(a::Shape)");
    assert_eq!(var.debug(&db), "?17");
    assert_eq!(inner.full_path(&db), "a::Impl1::Inner");
    assert_eq!(inner_id.debug(&db), "a::Impl1::Inner");
    assert_eq!(inner_id.name(&db), "Impl1::_");
    assert_eq!(inner.impl_id(), imp);
    assert_eq!(inner.trait_impl_id(), item);
    match db.impl_long(imp) {
        ImplLongId::Concrete(c) => {
            db.facts.impl_args_texts.insert(c, "::<felt252>".to_string());
            assert_eq!(c.full_path(&db), "a::Impl1::<felt252>");
            assert_eq!(c.name(&db), "Impl1");
            assert_eq!(c.impl_def_id(&db), impl_def(1));
        }
        _ => panic!("no concrete impl"),
    }
}

#[test]
fn impls_have_traits_and_heads() {
    let mut db = SemanticGroup::new(core_info());
    let shape = trait_of(&mut db, own_trait(1), &[]);
    let marker = trait_of(&mut db, own_trait(2), &[]);
    db.facts.traits.insert(own_trait(1), trait_facts("Shape"));
    db.facts.impl_defs.insert(impl_def(1), impl_facts(1, shape, own_trait(1), vec![]));
    let imp = concrete(&mut db, impl_def(1), vec![]);
    let own = db.intern_impl(ImplLongId::SelfImpl(marker));
    assert_eq!(impl_concrete_trait(&db, imp), Ok(shape));
    assert_eq!(imp.concrete_trait(&db), Ok(shape));
    assert_eq!(impl_concrete_trait(&db, own), Ok(marker));
    assert_eq!(imp.head(&db), Some(ImplHead::Concrete(impl_def(1))));
    assert_eq!(own.head(&db), Some(ImplHead::SelfImpl(own_trait(2))));
    let item = TraitImplId { trait_id: own_trait(1), name: SmolStrId(1), stable_ptr: ptr(1) };
    let inner = ImplImplId::new(imp, item, &db);
    let key = ConcreteTraitImplId { concrete_trait: shape, trait_impl_id: item };
    assert_eq!(inner.concrete_trait_impl_id(&db), Ok(key));
    assert_eq!(impl_impl_concrete_trait(&db, inner), Err(DiagnosticAdded));
    db.facts.trait_impl_traits.insert(key, Ok(marker));
    assert_eq!(impl_impl_concrete_trait(&db, inner), Ok(marker));
    let inner_id = db.intern_impl(ImplLongId::ImplImpl(inner));
    assert_eq!(inner_id.head(&db), Some(ImplHead::ImplImpl(item)));
    let made = db.intern_generated_impl(GeneratedImplLongId {
        concrete_trait: shape,
        generic_params: vec![],
        impl_items: GeneratedImplItems(OrderedHashMap::new()),
    });
    let made = ImplLongId::GeneratedImpl(made);
    assert_eq!(made.head(&db), Some(ImplHead::GeneratedImpl(own_trait(1))));
    // Parameters and variables have none.
    let param = ImplLongId::GenericParameter(param_id(1, GenericKind::Impl));
    assert_eq!(param.head(&db), None);
    let var = ImplLongId::ImplVar(ImplVarId { id: 3, concrete_trait_id: shape });
    assert_eq!(var.head(&db), None);
}

#[test]
fn concrete_impls_depend_on_their_arguments() {
    let mut db = SemanticGroup::new(core_info());
    let ty = struct_type(&mut db, 0);
    let arg = GenericArgumentId::Type(ty);
    let inner = concrete(&mut db, impl_def(2), vec![arg]);
    let outer = concrete(&mut db, impl_def(1), vec![GenericArgumentId::Impl(inner)]);
    assert!(!priv_impl_is_fully_concrete(&db, outer));
    assert!(!priv_impl_is_var_free(&db, outer));
    db.facts.var_free_args.insert(arg);
    assert!(priv_impl_is_var_free(&db, outer));
    assert!(!outer.is_fully_concrete(&db));
    db.facts.fully_concrete_args.insert(arg);
    assert!(outer.is_fully_concrete(&db));
    assert!(outer.is_var_free(&db));
    let param = db.intern_impl(ImplLongId::GenericParameter(param_id(1, GenericKind::Impl)));
    assert!(param.is_var_free(&db));
    assert!(!param.is_fully_concrete(&db));
    let empty = concrete(&mut db, impl_def(3), vec![]);
    assert!(empty.is_fully_concrete(&db));
}

// --- Candidates ---

fn head_filter(head: u64) -> GenericsHeadFilter {
    GenericsHeadFilter::FirstGenericFilter(GenericArgumentHead(head))
}

#[test]
fn filters_compare_traits_and_heads() {
    let mut db = SemanticGroup::new(core_info());
    let ty = struct_type(&mut db, 0);
    let plain = trait_of(&mut db, own_trait(1), &[]);
    let of_type = trait_of(&mut db, own_trait(1), &[ty]);
    let fits = |db: &SemanticGroup, id: ConcreteTraitId, filter: GenericsHeadFilter| {
        let filter = TraitFilter { trait_id: own_trait(1), generics_filter: filter };
        concrete_trait_fits_trait_filter(db, id, &filter)
    };
    assert_eq!(fits(&db, plain, GenericsHeadFilter::NoFilter), Ok(true));
    assert_eq!(fits(&db, plain, GenericsHeadFilter::NoGenerics), Ok(true));
    assert_eq!(fits(&db, of_type, GenericsHeadFilter::NoGenerics), Ok(false));
    assert_eq!(fits(&db, plain, head_filter(1)), Ok(false));
    assert_eq!(fits(&db, of_type, head_filter(1)), Ok(true));
    db.facts.heads.insert(GenericArgumentId::Type(ty), GenericArgumentHead(1));
    assert_eq!(fits(&db, of_type, head_filter(1)), Ok(true));
    assert_eq!(fits(&db, of_type, head_filter(2)), Ok(false));
    let other = TraitFilter {
        trait_id: own_trait(2),
        generics_filter: GenericsHeadFilter::NoFilter,
    };
    assert_eq!(concrete_trait_fits_trait_filter(&db, plain, &other), Ok(false));
}

fn item(item_id: ModuleItemId, visibility: Visibility) -> ModuleItemInfo {
    ModuleItemInfo { item_id, visibility }
}

fn alias(n: u64) -> ImplAliasId {
    ImplAliasId { module_file_id: ModuleFileId(module(2), 0), stable_ptr: ptr(500 + n) }
}

/// Module 1 has impls 1 and 2 (the second private), and takes in what module 2 has: impl 1 by a
/// `use`, an alias and impl 3 of another trait.
fn modules() -> SemanticGroup {
    let mut db = SemanticGroup::new(core_info());
    let shape = trait_of(&mut db, own_trait(1), &[]);
    let marker = trait_of(&mut db, own_trait(2), &[]);
    db.facts.impl_defs.insert(impl_def(1), impl_facts(1, shape, own_trait(1), vec![]));
    db.facts.impl_defs.insert(impl_def(2), impl_facts(2, shape, own_trait(1), vec![]));
    db.facts.impl_defs.insert(impl_def(3), impl_facts(3, marker, own_trait(2), vec![]));
    let imp = concrete(&mut db, impl_def(2), vec![]);
    db.facts.impl_aliases.insert(
        alias(1),
        ImplAliasFacts {
            full_path: "a::Alias".to_string(),
            resolved_impl: Ok(imp),
            impl_def: Ok(impl_def(2)),
        },
    );
    db.facts.uses.insert(UseId(1), Ok(ResolvedGenericItem::Impl(impl_def(1))));
    db.facts.uses.insert(UseId(2), Ok(ResolvedGenericItem::Other(4)));
    for user_module in [module(1), module(2)] {
        for containing_module in [module(1), module(2)] {
            db.facts.visible.insert(VisibilityQuestion {
                visibility: Visibility::Public,
                containing_module,
                user_module,
            });
        }
    }
    db.facts.visible.insert(VisibilityQuestion {
        visibility: Visibility::Private,
        containing_module: module(1),
        user_module: module(1),
    });
    db.facts.modules.insert(
        module(1),
        ModuleFacts {
            items: Ok(vec![
                item(ModuleItemId::Impl(impl_def(2)), Visibility::Private),
                item(ModuleItemId::Other(7), Visibility::Public),
                item(ModuleItemId::Impl(impl_def(1)), Visibility::Public),
            ]),
            use_star_modules: vec![(module(1), module(2)), (module(1), module(9))],
        },
    );
    db.facts.modules.insert(
        module(2),
        ModuleFacts {
            items: Ok(vec![
                item(ModuleItemId::Use(UseId(1)), Visibility::Public),
                item(ModuleItemId::Use(UseId(2)), Visibility::Public),
                item(ModuleItemId::ImplAlias(alias(1)), Visibility::Public),
                item(ModuleItemId::Impl(impl_def(3)), Visibility::Public),
                item(ModuleItemId::Impl(impl_def(2)), Visibility::Private),
            ]),
            use_star_modules: vec![],
        },
    );
    db
}

fn shape_filter() -> TraitFilter {
    TraitFilter { trait_id: own_trait(1), generics_filter: GenericsHeadFilter::NoFilter }
}

#[test]
fn visible_items_are_candidates() {
    let db = modules();
    assert_eq!(
        module_impl_ids(&db, module(1), module(1)),
        Ok(vec![UninferredImpl::Def(impl_def(2)), UninferredImpl::Def(impl_def(1))])
    );
    assert_eq!(
        module_impl_ids(&db, module(2), module(1)),
        Ok(vec![UninferredImpl::Def(impl_def(1))])
    );
    assert_eq!(module_impl_ids(&db, module(1), module(9)), Err(DiagnosticAdded));
}

#[test]
fn own_candidates_come_first_and_once() {
    let db = modules();
    assert_eq!(
        module_impl_ids_for_trait_filter(&db, module(1), shape_filter()),
        Ok(vec![
            UninferredImpl::Def(impl_def(2)),
            UninferredImpl::Def(impl_def(1)),
            UninferredImpl::ImplAlias(alias(1)),
        ])
    );
    let marker =
        TraitFilter { trait_id: own_trait(2), generics_filter: GenericsHeadFilter::NoGenerics };
    assert_eq!(
        module_impl_ids_for_trait_filter(&db, module(1), marker),
        Ok(vec![UninferredImpl::Def(impl_def(3))])
    );
    assert_eq!(
        module_impl_ids_for_trait_filter(&db, module(9), marker),
        Err(DiagnosticAdded)
    );
    assert_eq!(
        module_impl_ids_for_trait_filter_cycle(module(1), marker),
        Err(DiagnosticAdded)
    );
}

#[test]
fn impl_items_are_candidates() {
    let mut db = modules();
    let shape = trait_of(&mut db, own_trait(1), &[]);
    let marker = trait_of(&mut db, own_trait(2), &[]);
    let item = TraitImplId { trait_id: own_trait(2), name: SmolStrId(1), stable_ptr: ptr(1) };
    let mut impls = OrderedHashMap::new();
    impls.insert(SmolStrId(1), item);
    db.facts
        .traits
        .insert(own_trait(2), TraitFacts { impls: Ok(impls), ..trait_facts("Marker") });
    db.facts.trait_impl_traits.insert(
        ConcreteTraitImplId { concrete_trait: marker, trait_impl_id: item },
        Ok(shape),
    );
    let imp = concrete(&mut db, impl_def(3), vec![]);
    let expected = UninferredImpl::ImplImpl(ImplImplId { impl_id: imp, trait_impl_id: item });
    assert_eq!(impl_impl_ids_for_trait_filter(&db, imp, shape_filter()), Ok(vec![expected]));
    assert_eq!(
        impl_impl_ids_for_trait_filter_cycle(imp, shape_filter()),
        Err(DiagnosticAdded)
    );
    assert_eq!(expected.concrete_trait(&db), Ok(shape));
    assert_eq!(expected.lookup_scope(&db), ImplOrModuleById::Impl(imp));
}

#[test]
fn contexts_hold_parameters_and_scopes() {
    let mut db = modules();
    let shape = trait_of(&mut db, own_trait(1), &[]);
    let param = param_id(60, GenericKind::Impl);
    db.facts.generic_params.insert(
        param,
        GenericParamFacts {
            semantic: Ok(GenericParam::Impl(GenericParamImpl {
                id: param,
                concrete_trait: Ok(shape),
                type_constraints: TypeConstraints(0),
            })),
            named_trait: Ok(own_trait(1)),
            debug_name: "T".to_string(),
            format: "T".to_string(),
        },
    );
    let other = param_id(61, GenericKind::Type);
    let mut context = ImplLookupContext::new(module(1), vec![other, param]);
    context.insert_module(module(2));
    match find_candidates_at_context(&db, &context, &shape_filter()) {
        Ok(found) => {
            let all: Vec<UninferredImpl> = (0..found.len()).map(|i| *found.at(i)).collect();
            assert_eq!(
                all,
                vec![
                    UninferredImpl::GenericParam(param),
                    UninferredImpl::Def(impl_def(2)),
                    UninferredImpl::Def(impl_def(1)),
                    UninferredImpl::ImplAlias(alias(1)),
                ]
            );
        }
        Err(_) => panic!("no candidates"),
    }
    db.facts.cycles.module_filters.insert(module(1));
    match find_candidates_at_context(&db, &context, &shape_filter()) {
        Ok(found) => {
            assert_eq!(found.len(), 3);
            assert_eq!(*found.at(1), UninferredImpl::Def(impl_def(1)));
        }
        Err(_) => panic!("no candidates"),
    }
}

#[test]
fn candidates_have_traits_scopes_and_texts() {
    let mut db = modules();
    let shape = trait_of(&mut db, own_trait(1), &[]);
    db.facts.names.insert(SmolStrId(5), "T".to_string());
    let def = UninferredImpl::Def(impl_def(1));
    assert_eq!(def.concrete_trait(&db), Ok(shape));
    assert_eq!(def.trait_id(&db), Ok(own_trait(1)));
    assert_eq!(def.lookup_scope(&db), ImplOrModuleById::Module(module(1)));
    assert_eq!(def.debug(&db), "\"a::Impl1\"");
    let by_alias = UninferredImpl::ImplAlias(alias(1));
    assert_eq!(by_alias.concrete_trait(&db), Ok(shape));
    assert_eq!(by_alias.trait_id(&db), Ok(own_trait(1)));
    assert_eq!(by_alias.debug(&db), "\"a::Alias\"");
    let named = GenericParamId { name: Some(SmolStrId(5)), ..param_id(62, GenericKind::Impl) };
    assert_eq!(UninferredImpl::GenericParam(named).debug(&db), "generic param T");
    let unnamed = param_id(63, GenericKind::Impl);
    assert_eq!(UninferredImpl::GenericParam(unnamed).debug(&db), "generic param _");
}

// --- Closures ---

/// A closure of one struct that returns it, and captures it twice and another one once.
fn closure(db: &mut SemanticGroup) -> TypeId {
    let a = struct_type(db, 0);
    let b = struct_type(db, 1);
    let mut types = OrderedHashMap::new();
    types.insert(
        OUTPUT,
        TraitTypeId { trait_id: core_trait(2), name: OUTPUT, stable_ptr: ptr(70) },
    );
    let mut once_types = OrderedHashMap::new();
    once_types.insert(
        OUTPUT,
        TraitTypeId { trait_id: core_trait(3), name: OUTPUT, stable_ptr: ptr(71) },
    );
    db.facts.traits.insert(
        core_trait(2),
        TraitFacts {
            types: Ok(types),
            generic_params: Ok(vec![type_param(80)]),
            ..trait_facts("Fn")
        },
    );
    db.facts.traits.insert(
        core_trait(3),
        TraitFacts {
            types: Ok(once_types),
            generic_params: Ok(vec![type_param(81)]),
            ..trait_facts("FnOnce")
        },
    );
    for n in 9..13 {
        let facts =
            TraitFacts { generic_params: Ok(vec![type_param(82 + n)]), ..trait_facts("Mem") };
        db.facts.traits.insert(core_trait(n), facts);
    }
    db.intern_type(TypeLongId::Closure(ClosureTypeLongId {
        param_tys: vec![a],
        ret_ty: a,
        captured_types: vec![a, b, a],
        wrapper_location: ptr(72),
    }))
}

fn generated(db: &mut SemanticGroup, trait_id: TraitId) -> UninferredGeneratedImplId {
    let ty = closure(db);
    let concrete_trait = trait_of(db, trait_id, &[ty]);
    match find_closure_generated_candidate(db, concrete_trait) {
        Some(UninferredImpl::GeneratedImpl(id)) => id,
        _ => panic!("no generated impl"),
    }
}

fn asked(db: &SemanticGroup, param: &GenericParam) -> (bool, TraitId, usize, u64) {
    match param {
        GenericParam::Impl(p) => {
            let long = db.trait_long(p.concrete_trait.ok().unwrap());
            (true, long.trait_id, long.generic_args.len(), p.id.stable_ptr.0)
        }
        GenericParam::NegImpl(p) => {
            let long = db.trait_long(p.concrete_trait.ok().unwrap());
            (false, long.trait_id, long.generic_args.len(), p.id.stable_ptr.0)
        }
        _ => panic!("not an impl parameter"),
    }
}

#[test]
fn closures_are_called_through_fn_if_they_can_be_copied() {
    let mut db = SemanticGroup::new(core_info());
    let id = generated(&mut db, core_trait(2));
    let long = db.lookup_intern_uninferred_generated_impl(id);
    assert_eq!(long.generic_params.len(), 2);
    assert_eq!(asked(&db, &long.generic_params[0]), (true, core_trait(9), 1, 91));
    assert_eq!(asked(&db, &long.generic_params[1]), (true, core_trait(9), 1, 91));
    assert_eq!(long.impl_items.0.len(), 1);
    assert_eq!(*long.impl_items.0.entry_at(0).1, TypeId(0));
    let call = db.trait_long(long.concrete_trait);
    assert_eq!(call.trait_id, core_trait(2));
    match call.generic_args[1] {
        GenericArgumentId::Type(tuple) => {
            assert!(matches!(db.type_long(tuple), TypeLongId::Tuple(t) if *t == vec![TypeId(0)]));
        }
        _ => panic!("no tuple"),
    }
    assert_eq!(id.concrete_trait(&db), long.concrete_trait);
    assert_eq!(id.trait_id(&db), core_trait(2));
}

#[test]
fn closures_are_called_once_if_there_is_no_fn() {
    let mut db = SemanticGroup::new(core_info());
    let id = generated(&mut db, core_trait(3));
    let long = db.lookup_intern_uninferred_generated_impl(id);
    assert_eq!(long.generic_params.len(), 1);
    assert_eq!(asked(&db, &long.generic_params[0]), (false, core_trait(2), 2, 81));
    assert_eq!(db.trait_long(long.concrete_trait).trait_id, core_trait(3));
}

#[test]
fn closures_are_copied_and_dropped_by_their_captures() {
    let mut db = SemanticGroup::new(core_info());
    for (n, rival) in [(9, None), (10, None), (11, Some(10)), (12, Some(11))] {
        let id = generated(&mut db, core_trait(n));
        let long = db.lookup_intern_uninferred_generated_impl(id);
        assert_eq!(asked(&db, &long.generic_params[0]), (true, core_trait(n), 1, 82 + n));
        assert_eq!(asked(&db, &long.generic_params[1]), (true, core_trait(n), 1, 82 + n));
        match rival {
            Some(other) => {
                assert_eq!(long.generic_params.len(), 3);
                let last = asked(&db, &long.generic_params[2]);
                assert_eq!(last, (false, core_trait(other), 1, 82 + n));
            }
            None => assert_eq!(long.generic_params.len(), 2),
        }
        assert_eq!(long.impl_items.0.len(), 0);
    }
}

#[test]
fn other_traits_and_types_have_no_generated_impl() {
    let mut db = SemanticGroup::new(core_info());
    let ty = closure(&mut db);
    let other = trait_of(&mut db, own_trait(1), &[ty]);
    assert_eq!(find_closure_generated_candidate(&mut db, other), None);
    let of_struct = trait_of(&mut db, core_trait(9), &[TypeId(0)]);
    assert_eq!(find_closure_generated_candidate(&mut db, of_struct), None);
    let without_args = trait_of(&mut db, core_trait(9), &[]);
    assert_eq!(find_closure_generated_candidate(&mut db, without_args), None);
}

// --- Inference by self ---

fn question(n: u64) -> SelfQuestion {
    SelfQuestion {
        trait_function_id: function(own_trait(n), 30),
        self_ty: TypeId(0),
        stable_ptr: ptr(33),
    }
}

fn other_error(n: u64) -> InferenceError {
    InferenceError::Other(InferenceErrorId(n))
}

fn answer(
    by_self: Option<TraitBySelf>,
    solutions: Result<SolutionSet, Option<InferenceError>>,
) -> SelfAnswer {
    SelfAnswer { by_self, errors: vec![], solve_error: None, solutions }
}

fn found(impl_id: ImplId) -> Option<TraitBySelf> {
    Some(TraitBySelf { concrete_trait_id: ConcreteTraitId(0), n_snapshots: 2, impl_id })
}

fn context_with(answers: Vec<(u64, SelfAnswer)>) -> ComputationContext {
    let mut self_answers = OrderedHashMap::new();
    for (n, answer) in answers {
        self_answers.insert(question(n), answer);
    }
    ComputationContext {
        self_answers,
        generic_args_answers: OrderedHashMap::new(),
        diagnostics: SemanticDiagnostics::new(),
    }
}

fn inferred(ctx: &ComputationContext, n: u64) -> (bool, Vec<(TraitFunctionId, InferenceError)>) {
    let mut errors = vec![];
    let q = question(n);
    let res =
        can_infer_impl_by_self(ctx, &mut errors, q.trait_function_id, q.self_ty, q.stable_ptr);
    (res, errors)
}

#[test]
fn impls_can_be_inferred_by_self() {
    let imp = ImplId(0);
    let f = |n: u64| function(own_trait(n), 30);
    let ctx = context_with(vec![
        (1, answer(found(imp), Ok(SolutionSet::Unique))),
        (2, answer(found(imp), Ok(SolutionSet::Ambiguous))),
        (3, answer(found(imp), Ok(SolutionSet::Empty))),
        (4, answer(found(imp), Err(Some(other_error(4))))),
        (5, answer(found(imp), Err(None))),
        (
            6,
            SelfAnswer {
                errors: vec![(f(6), other_error(60))],
                ..answer(None, Ok(SolutionSet::Unique))
            },
        ),
        (
            7,
            SelfAnswer {
                errors: vec![(f(7), other_error(70))],
                solve_error: Some(other_error(71)),
                ..answer(found(imp), Ok(SolutionSet::Empty))
            },
        ),
    ]);
    assert_eq!(inferred(&ctx, 1), (true, vec![]));
    assert_eq!(inferred(&ctx, 2), (true, vec![]));
    let none_found = InferenceError::NoImplsFound(ConcreteTraitId(0));
    assert_eq!(inferred(&ctx, 3), (false, vec![(f(3), none_found)]));
    assert_eq!(inferred(&ctx, 4), (false, vec![(f(4), other_error(4))]));
    assert_eq!(inferred(&ctx, 5), (false, vec![]));
    assert_eq!(inferred(&ctx, 6), (false, vec![(f(6), other_error(60))]));
    assert_eq!(
        inferred(&ctx, 7),
        (
            false,
            vec![(f(7), other_error(70)), (f(7), other_error(71)), (f(7), none_found)]
        )
    );
    assert_eq!(inferred(&ctx, 8), (false, vec![]));
}

#[test]
fn functions_are_inferred_by_self() {
    let mut db = SemanticGroup::new(core_info());
    let ty = struct_type(&mut db, 0);
    let shape = trait_of(&mut db, own_trait(1), &[]);
    let imp = db.intern_impl(ImplLongId::SelfImpl(shape));
    let called = ConcreteTraitGenericFunctionId {
        concrete_trait: shape,
        trait_function_id: function(own_trait(1), 30),
    };
    db.facts.trait_function_params.insert(called, Ok(vec![]));
    let mut ctx = context_with(vec![(1, answer(found(imp), Ok(SolutionSet::Unique)))]);
    let args = |generic_args: Vec<GenericArg>| GenericArgsQuestion {
        impl_id: imp,
        function: called,
        generic_args,
        stable_ptr: ptr(33),
    };
    ctx.generic_args_answers.insert(
        args(vec![GenericArg(ptr(34))]),
        GenericArgsAnswer {
            generic_args: Ok(vec![GenericArgumentId::Type(ty)]),
            diagnostics: vec![],
        },
    );
    ctx.generic_args_answers.insert(
        args(vec![]),
        GenericArgsAnswer {
            generic_args: Err(DiagnosticAdded),
            diagnostics: vec![OutsideDiagnostic {
                stable_ptr: ptr(35),
                code: 6,
                severity: Severity::Error,
            }],
        },
    );
    let q = question(1);
    let written = Some(vec![GenericArg(ptr(34))]);
    let res = infer_impl_by_self(
        &mut db,
        &mut ctx,
        q.trait_function_id,
        q.self_ty,
        q.stable_ptr,
        written,
    );
    match res {
        Ok((id, n_snapshots)) => {
            assert_eq!(n_snapshots, 2);
            let long = db.interned.functions.long(id.0);
            assert_eq!(long.generic_args, vec![GenericArgumentId::Type(ty)]);
            match long.generic_function {
                GenericFunctionId::Impl(f) => {
                    assert_eq!(f.impl_id, imp);
                    assert_eq!(f.function, q.trait_function_id);
                }
                GenericFunctionId::Other(_) => panic!("not a function of an impl"),
            }
        }
        Err(_) => panic!("no function"),
    }
    let res = infer_impl_by_self(
        &mut db,
        &mut ctx,
        q.trait_function_id,
        q.self_ty,
        q.stable_ptr,
        None,
    );
    assert_eq!(res, Err(DiagnosticAdded));
    let q = question(2);
    let res = infer_impl_by_self(
        &mut db,
        &mut ctx,
        q.trait_function_id,
        q.self_ty,
        q.stable_ptr,
        None,
    );
    assert_eq!(res, Err(DiagnosticAdded));
    assert_eq!(ctx.diagnostics.build().entries.len(), 1);
}

#[test]
fn candidate_traits_have_a_callable_function() {
    let mut db = SemanticGroup::new(core_info());
    for n in 1..5 {
        let mut functions = OrderedHashMap::new();
        let name = if n == 4 { 31 } else { 30 };
        functions.insert(SmolStrId(name), function(own_trait(n), name));
        db.facts
            .traits
            .insert(own_trait(n), TraitFacts { functions: Ok(functions), ..trait_facts("T") });
    }
    let ctx = context_with(vec![
        (1, answer(found(ImplId(0)), Ok(SolutionSet::Unique))),
        (2, answer(found(ImplId(0)), Ok(SolutionSet::Empty))),
        (3, answer(found(ImplId(0)), Ok(SolutionSet::Ambiguous))),
    ]);
    let mut errors = vec![];
    let traits = vec![own_trait(5), own_trait(3), own_trait(2), own_trait(4), own_trait(1)];
    let candidates = filter_candidate_traits(
        &db,
        &ctx,
        &mut errors,
        TypeId(0),
        &traits,
        SmolStrId(30),
        ptr(33),
    );
    assert_eq!(candidates, vec![function(own_trait(3), 30), function(own_trait(1), 30)]);
    let none_found = InferenceError::NoImplsFound(ConcreteTraitId(0));
    assert_eq!(errors, vec![(function(own_trait(2), 30), none_found)]);
}

// --- Dereferences ---

/// Adds an impl that dereferences one struct to another.
fn add_deref(db: &mut SemanticGroup, n: u64, from: u64, to: u64, trait_id: TraitId) -> ImplId {
    let from = struct_type(db, from);
    let to = struct_type(db, to);
    let concrete_trait = trait_of(db, trait_id, &[from]);
    let ty = ItemTypeAlias {
        stable_ptr: ptr(600 + n),
        name: TARGET,
        name_ptr: ptr(700 + n),
        generic_params_ptr: ptr(800 + n),
        has_generic_params: false,
    };
    let body =
        vec![ImplItem::Type(ty, ItemFeature { kind: FeatureKind(0), diagnostics: vec![] })];
    let mut types = OrderedHashMap::new();
    types.insert(TARGET, TraitTypeId { trait_id, name: TARGET, stable_ptr: ptr(65) });
    db.facts
        .traits
        .insert(trait_id, TraitFacts { types: Ok(types), ..trait_facts("Deref") });
    db.facts.impl_defs.insert(impl_def(n), impl_facts(n, concrete_trait, trait_id, body));
    db.facts.trait_texts.insert(concrete_trait, format!("Deref<S{}>", from.0));
    let outcome = || {
        Ok(TypeAliasOutcome {
            resolved_type: Ok(to),
            attributes: vec![],
            resolver_data: resolver(3),
            diagnostics: vec![],
        })
    };
    db.facts.type_items.insert(
        ImplTypeDefId { impl_def_id: impl_def(n), name: TARGET, stable_ptr: ptr(600 + n) },
        TypeItemFacts {
            generics: Ok(AliasGenerics {
                generic_params: vec![],
                diagnostics: vec![],
                resolver_data: resolver(4),
            }),
            alias: outcome(),
            alias_in_cycle: outcome(),
        },
    );
    let imp = concrete(db, impl_def(n), vec![]);
    // Found from the module of the trait, and from that of the impls.
    let contexts = [ModuleId::CrateRoot(CrateId(0)), module(1)];
    for module_id in contexts {
        let lookup_context = ImplLookupContext::new(module_id, vec![]);
        db.facts.impl_answers.insert(ImplQuestion { lookup_context, concrete_trait }, Ok(imp));
    }
    imp
}

#[test]
fn types_are_dereferenced_one_after_the_other() {
    let mut db = SemanticGroup::new(core_info());
    add_deref(&mut db, 1, 0, 1, core_trait(7));
    add_deref(&mut db, 2, 1, 2, core_trait(7));
    let chain = deref_chain(&mut db, TypeId(0), false).ok().unwrap();
    let targets: Vec<TypeId> = chain.derefs.iter().map(|d| d.target_ty).collect();
    assert_eq!(targets, vec![TypeId(1), TypeId(2)]);
    assert!(chain.derefs.iter().all(|d| d.self_mutability == Mutability::Immutable));
    let function = db.interned.functions.long(chain.derefs[0].function_id.0);
    match function.generic_function {
        GenericFunctionId::Impl(f) => assert_eq!(f.function, core_info().deref_fn),
        GenericFunctionId::Other(_) => panic!("not a function of an impl"),
    }
    let end = deref_chain(&mut db, TypeId(2), false).ok().unwrap();
    assert!(end.derefs.is_empty());
}

#[test]
fn mutable_dereferences_come_first() {
    let mut db = SemanticGroup::new(core_info());
    add_deref(&mut db, 1, 0, 1, core_trait(7));
    add_deref(&mut db, 2, 0, 2, core_trait(8));
    let shared = deref_chain(&mut db, TypeId(0), false).ok().unwrap();
    assert_eq!(shared.derefs[0].target_ty, TypeId(1));
    let mutable = deref_chain(&mut db, TypeId(0), true).ok().unwrap();
    assert_eq!(mutable.derefs.len(), 1);
    assert_eq!(mutable.derefs[0].target_ty, TypeId(2));
    assert_eq!(mutable.derefs[0].self_mutability, Mutability::Reference);
    match try_get_deref_func_and_target(&mut db, TypeId(0), true) {
        Ok(Some((_, target))) => assert_eq!(target, TypeId(2)),
        _ => panic!("no dereference"),
    }
    assert_eq!(try_get_deref_func_and_target(&mut db, TypeId(1), true), Ok(None));
}

#[test]
fn endless_dereferences_fail() {
    let mut db = SemanticGroup::new(core_info());
    add_deref(&mut db, 1, 0, 1, core_trait(7));
    add_deref(&mut db, 2, 1, 0, core_trait(7));
    assert!(deref_chain(&mut db, TypeId(0), false).is_err());
    assert!(deref_chain_cycle(TypeId(0), false).is_err());
}

#[test]
fn dereference_cycles_are_reported() {
    let mut db = SemanticGroup::new(core_info());
    add_deref(&mut db, 1, 0, 1, core_trait(7));
    add_deref(&mut db, 2, 1, 0, core_trait(7));
    let concrete_trait = trait_of(&mut db, core_trait(7), &[TypeId(0)]);
    db.facts.type_modules.insert(TypeId(0), module(1));
    let mut diagnostics = SemanticDiagnostics::new();
    deref_impl_diagnostics(&mut db, impl_def(1), concrete_trait, &mut diagnostics);
    let entries = diagnostics.build().entries;
    assert_eq!(entries.len(), 1);
    assert_eq!(entries[0].stable_ptr, ptr(202));
    match &entries[0].kind {
        SemanticDiagnosticKind::DerefCycle { deref_chain } => {
            assert_eq!(deref_chain, "Deref<S1> -> Deref<S0>");
        }
        _ => panic!("another diagnostic"),
    }
}

#[test]
fn dereferences_stand_next_to_the_type_or_the_trait() {
    let mut db = SemanticGroup::new(core_info());
    add_deref(&mut db, 1, 0, 1, core_trait(7));
    let concrete_trait = trait_of(&mut db, core_trait(7), &[TypeId(0)]);
    let mut diagnostics = SemanticDiagnostics::new();
    deref_impl_diagnostics(&mut db, impl_def(1), concrete_trait, &mut diagnostics);
    let entries = diagnostics.build().entries;
    assert_eq!(entries.len(), 1);
    assert!(matches!(
        entries[0].kind,
        SemanticDiagnosticKind::MustBeNextToTypeOrTrait { trait_id } if trait_id == core_trait(7)
    ));
    db.facts.type_modules.insert(TypeId(0), module(1));
    let mut diagnostics = SemanticDiagnostics::new();
    deref_impl_diagnostics(&mut db, impl_def(1), concrete_trait, &mut diagnostics);
    assert!(diagnostics.build().entries.is_empty());
}

#[test]
fn impls_are_found_by_the_type_of_another() {
    let mut db = SemanticGroup::new(core_info());
    add_deref(&mut db, 1, 0, 1, core_trait(7));
    let next = add_deref(&mut db, 2, 1, 2, core_trait(7));
    assert_eq!(
        get_impl_based_on_single_impl_type(&mut db, impl_def(1), core_trait(7)),
        Ok(next)
    );
    match get_impl_based_on_single_impl_type(&mut db, impl_def(2), core_trait(7)) {
        Err((InferenceError::NoImplsFound(_), id)) => assert_eq!(id.impl_def_id, impl_def(2)),
        _ => panic!("an impl was found"),
    }
}

#[test]
fn dereferences_are_looked_up_in_the_scope_of_the_type() {
    let mut db = SemanticGroup::new(core_info());
    let from = struct_type(&mut db, 0);
    add_deref(&mut db, 1, 0, 1, core_trait(7));
    db.facts.type_scopes.insert(from, ImplOrModuleById::Module(module(4)));
    assert_eq!(try_get_deref_func_and_target(&mut db, from, false), Ok(None));
    let concrete_trait = trait_of(&mut db, core_trait(7), &[from]);
    let imp = concrete(&mut db, impl_def(1), vec![]);
    let mut lookup_context = ImplLookupContext::new(ModuleId::CrateRoot(CrateId(0)), vec![]);
    lookup_context.insert_module(module(4));
    db.facts.impl_answers.insert(ImplQuestion { lookup_context, concrete_trait }, Ok(imp));
    match try_get_deref_func_and_target(&mut db, from, false) {
        Ok(Some((_, target))) => assert_eq!(target, TypeId(1)),
        _ => panic!("no dereference"),
    }
}

#[test]
fn fn_once_forbids_the_fn_of_the_closure() {
    let mut db = SemanticGroup::new(core_info());
    let once = generated(&mut db, core_trait(3));
    let call = generated(&mut db, core_trait(2));
    let forbidden = match db.lookup_intern_uninferred_generated_impl(once).generic_params[0] {
        GenericParam::NegImpl(p) => p.concrete_trait,
        _ => panic!("nothing is forbidden"),
    };
    assert_eq!(forbidden, Ok(call.concrete_trait(&db)));
}

#[test]
fn chains_go_on_from_their_targets() {
    let mut db = SemanticGroup::new(core_info());
    add_deref(&mut db, 1, 0, 1, core_trait(7));
    add_deref(&mut db, 2, 1, 2, core_trait(7));
    add_deref(&mut db, 3, 2, 3, core_trait(7));
    let whole = deref_chain(&mut db, TypeId(0), false).ok().unwrap();
    let rest = deref_chain(&mut db, TypeId(1), false).ok().unwrap();
    assert_eq!(whole.derefs.len(), 3);
    assert_eq!(whole.derefs[1..], rest.derefs[..]);
}

/// Takes away the type that an impl dereferences to.
fn break_deref(db: &mut SemanticGroup, n: u64) {
    db.facts.type_items.insert(
        ImplTypeDefId { impl_def_id: impl_def(n), name: TARGET, stable_ptr: ptr(600 + n) },
        TypeItemFacts {
            generics: Err(DiagnosticAdded),
            alias: Err(DiagnosticAdded),
            alias_in_cycle: Err(DiagnosticAdded),
        },
    );
}

#[test]
fn broken_dereferences_elsewhere_change_nothing() {
    let mut db = SemanticGroup::new(core_info());
    add_deref(&mut db, 1, 0, 1, core_trait(7));
    add_deref(&mut db, 2, 1, 0, core_trait(7));
    add_deref(&mut db, 3, 2, 3, core_trait(7));
    add_deref(&mut db, 4, 4, 5, core_trait(7));
    add_deref(&mut db, 5, 5, 6, core_trait(7));
    break_deref(&mut db, 5);
    // A cycle is still found, and a way that ends still has none.
    db.facts.type_modules.insert(TypeId(0), module(1));
    db.facts.type_modules.insert(TypeId(2), module(1));
    let cyclic = trait_of(&mut db, core_trait(7), &[TypeId(0)]);
    let mut diagnostics = SemanticDiagnostics::new();
    deref_impl_diagnostics(&mut db, impl_def(1), cyclic, &mut diagnostics);
    assert_eq!(diagnostics.build().entries.len(), 1);
    let ending = trait_of(&mut db, core_trait(7), &[TypeId(2)]);
    let mut diagnostics = SemanticDiagnostics::new();
    deref_impl_diagnostics(&mut db, impl_def(3), ending, &mut diagnostics);
    assert!(diagnostics.build().entries.is_empty());
    // So are dereferences.
    assert_eq!(try_get_deref_func_and_target(&mut db, TypeId(3), false), Ok(None));
    let chain = deref_chain(&mut db, TypeId(2), false).ok().unwrap();
    assert_eq!(chain.derefs.len(), 1);
    assert_eq!(chain.derefs[0].target_ty, TypeId(3));
}

#[test]
fn dereference_rules_are_among_the_reports_on_a_definition() {
    let mut db = SemanticGroup::new(core_info());
    add_deref(&mut db, 1, 0, 1, core_trait(7));
    add_deref(&mut db, 2, 1, 0, core_trait(7));
    add_deref(&mut db, 3, 2, 3, core_trait(7));
    break_deref(&mut db, 3);
    db.facts.type_modules.insert(TypeId(0), module(1));
    let entries = impl_semantic_definition_diagnostics(&mut db, impl_def(1)).entries;
    assert_eq!(entries.len(), 1);
    assert!(matches!(&entries[0].kind, SemanticDiagnosticKind::DerefCycle { .. }));
}

#[test]
fn chains_are_complete() {
    let mut db = SemanticGroup::new(core_info());
    add_deref(&mut db, 1, 0, 1, core_trait(7));
    add_deref(&mut db, 2, 1, 2, core_trait(7));
    let chain = deref_chain(&mut db, TypeId(0), false).ok().unwrap();
    let end = chain.derefs[chain.derefs.len() - 1].target_ty;
    assert_eq!(try_get_deref_func_and_target(&mut db, end, false), Ok(None));
    assert!(deref_chain(&mut db, end, true).ok().unwrap().derefs.is_empty());
}

#[test]
fn generated_impls_are_interned_once() {
    let mut db = SemanticGroup::new(core_info());
    let from = struct_type(&mut db, 0);
    let to = struct_type(&mut db, 1);
    let concrete_trait = trait_of(&mut db, core_trait(7), &[from]);
    let ty = TraitTypeId { trait_id: core_trait(7), name: TARGET, stable_ptr: ptr(65) };
    let long = |ty: TraitTypeId, target: TypeId| {
        let mut items = OrderedHashMap::new();
        items.insert(ty, target);
        GeneratedImplLongId {
            concrete_trait,
            generic_params: vec![],
            impl_items: GeneratedImplItems(items),
        }
    };
    let id = db.intern_generated_impl(long(ty, to));
    let other = db.intern_generated_impl(long(ty, from));
    assert_eq!(db.intern_generated_impl(long(ty, to)), id);
    assert_ne!(other, id);
    assert_eq!(id.concrete_trait(&db), concrete_trait);
    assert_eq!(id.trait_id(&db), core_trait(7));
    let impl_id = db.intern_impl(ImplLongId::GeneratedImpl(id));
    assert_eq!(impl_type_concrete_implized(&mut db, ImplTypeId { impl_id, ty }), Ok(to));
}
