//! The impls that the compiler makes for closures.

use vstd::prelude::*;

use crate::collections::{
    copy_ids, law_set_extend, lookup, set_extend, views, OrderedHashMap, OrderedHashSet,
};
use crate::db::SemanticGroup;
use crate::deref::type_trait;
use crate::diagnostics::{skip_diagnostic, DiagnosticAdded, Maybe};
use crate::facts::CoreInfo;
use crate::ids::{
    ConcreteTraitId, GenericParamId, TraitId, TraitTypeId, TypeConstraints, TypeId,
    UninferredGeneratedImplId,
};
use crate::model::{
    ClosureTypeView, ConcreteTraitLongId, GeneratedImplItems, GenericArgumentId, GenericParam,
    GenericParamImpl, TypeLongId, UninferredGeneratedImplLongId, UninferredGeneratedImplView,
    UninferredImpl,
};

verus! {

/// The closure that a trait has as its first argument.
pub open spec fn closure_of(db: SemanticGroup, id: ConcreteTraitId) -> Option<
    (TypeId, ClosureTypeView),
> {
    let args = db.spec_trait_long(id).generic_args;
    if args.len() == 0 {
        None
    } else {
        match args[0] {
            GenericArgumentId::Type(ty) => match db.spec_type_long(ty) {
                TypeLongId::Closure(c) => Some((ty, c)),
                _ => None,
            },
            _ => None,
        }
    }
}

/// The generic parameters of a trait.
pub open spec fn trait_params(db: SemanticGroup, trait_id: TraitId) -> Maybe<Seq<GenericParam>> {
    match lookup(db.facts.traits@, trait_id) {
        Some(f) => match f.generic_params {
            Ok(params) => Ok(params@),
            Err(e) => Err(e),
        },
        None => Err(DiagnosticAdded),
    }
}

/// Whether a trait has a generic parameter.
pub open spec fn has_first_param(db: SemanticGroup, trait_id: TraitId) -> bool {
    trait_params(db, trait_id) matches Ok(params) && params.len() > 0
}

/// The first generic parameter of a trait.
pub open spec fn first_param(db: SemanticGroup, trait_id: TraitId) -> GenericParamId {
    trait_params(db, trait_id)->Ok_0[0].spec_id()
}

/// The type `Output` of a trait.
pub open spec fn output_type(db: SemanticGroup, trait_id: TraitId) -> Maybe<Option<TraitTypeId>> {
    db.spec_trait_type_by_name(trait_id, db.facts.core.output_name)
}

/// Whether the core library has what an impl for a closure is made of.
pub open spec fn closure_ready(db: SemanticGroup, id: ConcreteTraitId) -> bool {
    let trait_id = db.spec_trait_long(id).trait_id;
    let core = db.facts.core;
    closure_of(db, id) is Some ==> {
        if trait_id == core.fn_once_trt {
            has_first_param(db, trait_id) && output_type(db, trait_id) matches Ok(Some(_))
        } else if trait_id == core.fn_trt {
            has_first_param(db, core.copy_trt) && output_type(db, trait_id) matches Ok(Some(_))
        } else if trait_id == core.drop_trt || trait_id == core.destruct_trt || trait_id
            == core.panic_destruct_trt || trait_id == core.copy_trt {
            has_first_param(db, trait_id)
        } else {
            true
        }
    }
}

/// Whether a trait is a function trait of a closure: its arguments are the closure and the tuple
/// of the parameters.
pub open spec fn is_call_trait(
    db: SemanticGroup,
    id: ConcreteTraitId,
    trait_id: TraitId,
    closure_type: TypeId,
    closure: ClosureTypeView,
) -> bool {
    let long = db.spec_trait_long(id);
    &&& db.has_trait(id)
    &&& long.trait_id == trait_id
    &&& long.generic_args.len() == 2
    &&& long.generic_args[0] == GenericArgumentId::Type(closure_type)
    &&& long.generic_args[1] matches GenericArgumentId::Type(tuple) && db.has_type(tuple) && (
    db.spec_type_long(tuple) matches TypeLongId::Tuple(types) && types == closure.param_tys)
}

/// An impl parameter, or one that forbids an impl, without constraints on types.
pub open spec fn plain_param(
    id: GenericParamId,
    concrete_trait: ConcreteTraitId,
) -> GenericParamImpl {
    GenericParamImpl {
        id,
        concrete_trait: Ok(concrete_trait),
        type_constraints: TypeConstraints(0),
    }
}

/// Whether a parameter asks for an impl of a trait for a type.
pub open spec fn asks_for(
    db: SemanticGroup,
    param: GenericParam,
    id: GenericParamId,
    trait_id: TraitId,
    ty: TypeId,
) -> bool {
    param matches GenericParam::Impl(p) && p.concrete_trait matches Ok(t) && p == plain_param(id, t)
        && db.has_trait(t) && db.spec_trait_long(t) == type_trait(trait_id, ty)
}

/// Whether a parameter forbids an impl of a trait for a type.
pub open spec fn forbids(
    db: SemanticGroup,
    param: GenericParam,
    id: GenericParamId,
    trait_id: TraitId,
    ty: TypeId,
) -> bool {
    param matches GenericParam::NegImpl(p) && p.concrete_trait matches Ok(t) && p == plain_param(
        id,
        t,
    ) && db.has_trait(t) && db.spec_trait_long(t) == type_trait(trait_id, ty)
}

/// The captured types of a closure, each once.
pub open spec fn captured_once(closure: ClosureTypeView) -> Seq<TypeId> {
    set_extend(Seq::empty(), closure.captured_types)
}

/// Whether parameters ask for an impl of a trait for each captured type, and, where another trait
/// is given, forbid an impl of that for the closure.
pub open spec fn are_mem_trait_params(
    db: SemanticGroup,
    params: Seq<GenericParam>,
    trait_id: TraitId,
    forbidden: Option<TraitId>,
    closure_type: TypeId,
    closure: ClosureTypeView,
) -> bool {
    let id = first_param(db, trait_id);
    let types = captured_once(closure);
    &&& params.len() == types.len() + if forbidden is Some {
        1int
    } else {
        0
    }
    &&& forall|i: int|
        0 <= i < types.len() ==> asks_for(db, #[trigger] params[i], id, trait_id, types[i])
    &&& forbidden matches Some(other) ==> forbids(db, params.last(), id, other, closure_type)
}

/// Whether an impl is the one that the compiler makes of a trait for a closure.
pub open spec fn is_closure_impl(
    db: SemanticGroup,
    id: ConcreteTraitId,
    closure_type: TypeId,
    closure: ClosureTypeView,
    imp: UninferredGeneratedImplView,
) -> bool {
    let trait_id = db.spec_trait_long(id).trait_id;
    let core = db.facts.core;
    if trait_id == core.fn_once_trt {
        // `FnOnce` is generated only if there is no `Fn`.
        &&& is_call_trait(db, imp.concrete_trait, trait_id, closure_type, closure)
        &&& imp.generic_params.len() == 1
        &&& imp.generic_params[0] matches GenericParam::NegImpl(p) && p.concrete_trait matches Ok(t)
            && p == plain_param(first_param(db, trait_id), t) && is_call_trait(
            db,
            t,
            core.fn_trt,
            closure_type,
            closure,
        )
        &&& imp.impl_items == seq![(output_type(db, trait_id)->Ok_0->0, closure.ret_ty)]
    } else if trait_id == core.fn_trt {
        // `Fn` is available only if the closure can be copied.
        &&& is_call_trait(db, imp.concrete_trait, trait_id, closure_type, closure)
        &&& are_mem_trait_params(
            db,
            imp.generic_params,
            core.copy_trt,
            None,
            closure_type,
            closure,
        )
        &&& imp.impl_items == seq![(output_type(db, trait_id)->Ok_0->0, closure.ret_ty)]
    } else {
        &&& imp.concrete_trait == id
        &&& are_mem_trait_params(
            db,
            imp.generic_params,
            trait_id,
            mem_trait_rival(core, trait_id),
            closure_type,
            closure,
        )
        &&& imp.impl_items.len() == 0
    }
}

/// The trait that must not be implemented for the compiler to implement one.
pub open spec fn mem_trait_rival(core: CoreInfo, trait_id: TraitId) -> Option<TraitId> {
    if trait_id == core.drop_trt {
        None
    } else if trait_id == core.destruct_trt {
        Some(core.drop_trt)
    } else if trait_id == core.panic_destruct_trt {
        Some(core.destruct_trt)
    } else {
        None
    }
}

/// Whether the compiler makes impls of a trait for closures.
pub open spec fn is_closure_trait(core: CoreInfo, trait_id: TraitId) -> bool {
    ||| trait_id == core.fn_once_trt
    ||| trait_id == core.fn_trt
    ||| trait_id == core.drop_trt
    ||| trait_id == core.destruct_trt
    ||| trait_id == core.panic_destruct_trt
    ||| trait_id == core.copy_trt
}

/// The first generic parameter of a trait.
fn read_first_param(db: &SemanticGroup, trait_id: TraitId) -> (res: Maybe<GenericParamId>)
    requires
        has_first_param(*db, trait_id),
    ensures
        res == Ok::<_, DiagnosticAdded>(first_param(*db, trait_id)),
{
    match db.facts.traits.get(&trait_id) {
        Some(f) => match &f.generic_params {
            Ok(params) => Ok(params[0].id()),
            Err(e) => Err(*e),
        },
        None => Err(skip_diagnostic()),
    }
}

/// The captured types, each once.
fn read_captured_once(captured_types: &Vec<TypeId>) -> (res: OrderedHashSet<TypeId>)
    ensures
        res@ == set_extend(Seq::empty(), captured_types@),
{
    let mut res: OrderedHashSet<TypeId> = OrderedHashSet::new();
    assert(views(captured_types@) =~= captured_types@);
    res.extend(captured_types);
    res
}

/// Members of a set are members of the list that it was made of.
proof fn lemma_once_members(s: Seq<TypeId>, t: Seq<TypeId>, i: int)
    requires
        0 <= i < set_extend(s, t).len(),
    ensures
        s.contains(set_extend(s, t)[i]) || t.contains(set_extend(s, t)[i]),
    decreases t.len(),
{
    if t.len() > 0 {
        let init = t.drop_last();
        let before = set_extend(s, init);
        let x = set_extend(s, t)[i];
        if i < before.len() {
            assert(x == before[i]);
            lemma_once_members(s, init, i);
            if init.contains(x) {
                let k = choose|k: int| 0 <= k < init.len() && init[k] == x;
                assert(t[k] == x);
            }
        } else {
            assert(x == t.last());
            assert(t[t.len() - 1] == x);
        }
    } else {
        assert(s.contains(s[i]));
    }
}

/// Asks for an impl of a trait for each of some types.
fn mem_trait_params(
    db: &mut SemanticGroup,
    trait_id: TraitId,
    types: &OrderedHashSet<TypeId>,
) -> (res: Vec<GenericParam>)
    requires
        old(db).wf(),
        has_first_param(*old(db), trait_id),
        old(db).sizes().has_types(types@),
    ensures
        final(db).wf(),
        final(db).grown_from(*old(db)),
        res@.len() == types@.len(),
        forall|i: int|
            0 <= i < res@.len() ==> asks_for(
                *final(db),
                #[trigger] res@[i],
                first_param(*final(db), trait_id),
                trait_id,
                types@[i],
            ),
{
    let mut res: Vec<GenericParam> = Vec::new();
    let id = match read_first_param(db, trait_id) {
        Ok(id) => id,
        Err(_) => {
            assert(false);
            vstd::pervasive::unreached()
        },
    };
    let count: usize = types.len();
    let mut i: usize = 0;
    while i < count
        invariant
            db.wf(),
            db.grown_from(*old(db)),
            id == first_param(*old(db), trait_id),
            old(db).sizes().has_types(types@),
            i <= count == types@.len(),
            res@.len() == i,
            forall|j: int|
                0 <= j < i ==> asks_for(*db, #[trigger] res@[j], id, trait_id, types@[j]),
        decreases count - i,
    {
        let ty = *types.at(i);
        assert(old(db).has_type(types@[i as int]));
        let ghost before = *db;
        let t = db.intern_type_trait(trait_id, ty);
        proof {
            assert forall|j: int| 0 <= j < i implies asks_for(
                *db,
                #[trigger] res@[j],
                id,
                trait_id,
                types@[j],
            ) by {
                lemma_asks_for_grown(before, *db, res@[j], id, trait_id, types@[j]);
            }
        }
        let ghost so_far = res@;
        res.push(
            GenericParam::Impl(
                GenericParamImpl {
                    id,
                    concrete_trait: Ok(t),
                    type_constraints: TypeConstraints(0),
                },
            ),
        );
        proof {
            assert forall|j: int| 0 <= j < i + 1 implies asks_for(
                *db,
                #[trigger] res@[j],
                id,
                trait_id,
                types@[j],
            ) by {
                if j < i {
                    assert(res@[j] == so_far[j]);
                }
            }
        }
        i += 1;
    }
    res
}

proof fn lemma_asks_for_grown(
    before: SemanticGroup,
    after: SemanticGroup,
    param: GenericParam,
    id: GenericParamId,
    trait_id: TraitId,
    ty: TypeId,
)
    requires
        after.grown_from(before),
        asks_for(before, param, id, trait_id, ty),
    ensures
        asks_for(after, param, id, trait_id, ty),
{
    let t = param->Impl_0.concrete_trait->Ok_0;
    assert(after.spec_trait_long(t) == before.spec_trait_long(t));
}

/// Interns a function trait of a closure.
fn intern_call_trait(
    db: &mut SemanticGroup,
    trait_id: TraitId,
    closure_type: TypeId,
    param_tys: &Vec<TypeId>,
    Ghost(closure): Ghost<ClosureTypeView>,
) -> (id: ConcreteTraitId)
    requires
        old(db).wf(),
        old(db).has_type(closure_type),
        old(db).sizes().has_types(param_tys@),
        closure.param_tys == param_tys@,
    ensures
        final(db).wf(),
        final(db).grown_from(*old(db)),
        is_call_trait(*final(db), id, trait_id, closure_type, closure),
{
    let long = TypeLongId::Tuple(copy_ids(param_tys));
    let tuple = db.intern_type(long);
    let ghost middle = *db;
    let mut generic_args: Vec<GenericArgumentId> = Vec::new();
    generic_args.push(GenericArgumentId::Type(closure_type));
    generic_args.push(GenericArgumentId::Type(tuple));
    let id = db.intern_concrete_trait(ConcreteTraitLongId { trait_id, generic_args });
    assert(db.spec_type_long(tuple) == middle.spec_type_long(tuple));
    id
}

proof fn lemma_call_trait_grown(
    before: SemanticGroup,
    after: SemanticGroup,
    id: ConcreteTraitId,
    trait_id: TraitId,
    closure_type: TypeId,
    closure: ClosureTypeView,
)
    requires
        after.grown_from(before),
        is_call_trait(before, id, trait_id, closure_type, closure),
    ensures
        is_call_trait(after, id, trait_id, closure_type, closure),
{
    let long = before.spec_trait_long(id);
    assert(after.spec_trait_long(id) == long);
    let tuple = long.generic_args[1]->Type_0;
    assert(after.spec_type_long(tuple) == before.spec_type_long(tuple));
}

/// The items of an impl that provides `Output`.
fn output_items(ret_ty: TraitTypeId, ty: TypeId) -> (res: GeneratedImplItems)
    ensures
        res.0@ == seq![(ret_ty, ty)],
{
    let mut items: OrderedHashMap<TraitTypeId, TypeId> = OrderedHashMap::new();
    items.insert(ret_ty, ty);
    assert(items@ =~= seq![(ret_ty, ty)]);
    GeneratedImplItems(items)
}

/// Interns the impl of `FnOnce` or `Fn` for a closure.
fn call_trait_candidate(
    db: &mut SemanticGroup,
    concrete_trait_id: ConcreteTraitId,
    closure_type: TypeId,
    param_tys: &Vec<TypeId>,
    captured: &OrderedHashSet<TypeId>,
    closure_ret_ty: TypeId,
    Ghost(closure): Ghost<ClosureTypeView>,
) -> (res: UninferredGeneratedImplId)
    requires
        old(db).wf(),
        old(db).has_trait(concrete_trait_id),
        closure_ready(*old(db), concrete_trait_id),
        closure_of(*old(db), concrete_trait_id) == Some((closure_type, closure)),
        old(db).has_type(closure_type),
        old(db).sizes().has_closure(closure),
        param_tys@ == closure.param_tys,
        captured@ == captured_once(closure),
        old(db).sizes().has_types(captured@),
        closure_ret_ty == closure.ret_ty,
        ({
            let trait_id = old(db).spec_trait_long(concrete_trait_id).trait_id;
            trait_id == old(db).facts.core.fn_once_trt || trait_id == old(db).facts.core.fn_trt
        }),
    ensures
        final(db).wf(),
        final(db).grown_from(*old(db)),
        final(db).has_uninferred_generated(res),
        is_closure_impl(
            *final(db),
            concrete_trait_id,
            closure_type,
            closure,
            final(db).spec_uninferred_generated_long(res),
        ),
{
    let ghost start = *db;
    let info = db.facts.core;
    let trait_id = db.trait_long(concrete_trait_id).trait_id;
    let ret_ty = match db.trait_type_by_name(trait_id, info.output_name) {
        Ok(Some(ret_ty)) => ret_ty,
        _ => {
            assert(false);
            vstd::pervasive::unreached()
        },
    };
    let concrete_trait = intern_call_trait(
        db,
        trait_id,
        closure_type,
        param_tys,
        Ghost(closure),
    );
    let ghost middle = *db;
    let impl_items = output_items(ret_ty, closure_ret_ty);
    if trait_id == info.fn_once_trt {
        let id = match read_first_param(db, trait_id) {
            Ok(id) => id,
            Err(_) => {
                assert(false);
                vstd::pervasive::unreached()
            },
        };
        // FnOnce is generated only if there is no fn trait.
        let fn_trait = intern_call_trait(
            db,
            info.fn_trt,
            closure_type,
            param_tys,
            Ghost(closure),
        );
        let ghost before = *db;
        let mut generic_params: Vec<GenericParam> = Vec::new();
        generic_params.push(
            GenericParam::NegImpl(
                GenericParamImpl {
                    id,
                    concrete_trait: Ok(fn_trait),
                    type_constraints: TypeConstraints(0),
                },
            ),
        );
        let res = db.intern_uninferred_generated_impl(
            UninferredGeneratedImplLongId { concrete_trait, generic_params, impl_items },
        );
        proof {
            lemma_call_trait_grown(middle, *db, concrete_trait, trait_id, closure_type, closure);
            lemma_call_trait_grown(before, *db, fn_trait, info.fn_trt, closure_type, closure);
            assert(db.spec_trait_long(concrete_trait_id) == start.spec_trait_long(
                concrete_trait_id,
            ));
        }
        res
    } else {
        // Makes the generated impl of fn_trait available only if the closure is copyable.
        let generic_params = mem_trait_params(db, info.copy_trt, captured);
        let ghost before = *db;
        proof {
            assert forall|i: int| 0 <= i < generic_params@.len() implies before.sizes().has_param(
                #[trigger] generic_params@[i],
            ) by {
                assert(asks_for(
                    before,
                    generic_params@[i],
                    first_param(before, info.copy_trt),
                    info.copy_trt,
                    captured@[i],
                ));
            }
        }
        let ghost params = generic_params@;
        let res = db.intern_uninferred_generated_impl(
            UninferredGeneratedImplLongId { concrete_trait, generic_params, impl_items },
        );
        proof {
            lemma_call_trait_grown(middle, *db, concrete_trait, trait_id, closure_type, closure);
            assert forall|i: int| 0 <= i < params.len() implies asks_for(
                *db,
                #[trigger] params[i],
                first_param(*db, info.copy_trt),
                info.copy_trt,
                captured@[i],
            ) by {
                lemma_asks_for_grown(
                    before,
                    *db,
                    params[i],
                    first_param(before, info.copy_trt),
                    info.copy_trt,
                    captured@[i],
                );
            }
            assert(db.spec_trait_long(concrete_trait_id) == start.spec_trait_long(
                concrete_trait_id,
            ));
        }
        res
    }
}

/// Interns the impl of `Copy`, `Drop`, `Destruct` or `PanicDestruct` for a closure.
fn mem_trait_candidate(
    db: &mut SemanticGroup,
    concrete_trait_id: ConcreteTraitId,
    closure_type: TypeId,
    captured: &OrderedHashSet<TypeId>,
    rival: Option<TraitId>,
    Ghost(closure): Ghost<ClosureTypeView>,
) -> (res: UninferredGeneratedImplId)
    requires
        old(db).wf(),
        old(db).has_trait(concrete_trait_id),
        closure_of(*old(db), concrete_trait_id) == Some((closure_type, closure)),
        old(db).has_type(closure_type),
        captured@ == captured_once(closure),
        old(db).sizes().has_types(captured@),
        ({
            let core = old(db).facts.core;
            let trait_id = old(db).spec_trait_long(concrete_trait_id).trait_id;
            &&& has_first_param(*old(db), trait_id)
            &&& trait_id != core.fn_once_trt && trait_id != core.fn_trt
            &&& rival == mem_trait_rival(core, trait_id)
        }),
    ensures
        final(db).wf(),
        final(db).grown_from(*old(db)),
        final(db).has_uninferred_generated(res),
        is_closure_impl(
            *final(db),
            concrete_trait_id,
            closure_type,
            closure,
            final(db).spec_uninferred_generated_long(res),
        ),
{
    let ghost start = *db;
    let trait_id = db.trait_long(concrete_trait_id).trait_id;
    let id = match read_first_param(db, trait_id) {
        Ok(id) => id,
        Err(_) => {
            assert(false);
            vstd::pervasive::unreached()
        },
    };
    let mut generic_params = mem_trait_params(db, trait_id, captured);
    let ghost asked = generic_params@;
    let ghost middle = *db;
    if let Some(other) = rival {
        let t = db.intern_type_trait(other, closure_type);
        generic_params.push(
            GenericParam::NegImpl(
                GenericParamImpl {
                    id,
                    concrete_trait: Ok(t),
                    type_constraints: TypeConstraints(0),
                },
            ),
        );
    }
    let ghost before = *db;
    let ghost params = generic_params@;
    proof {
        assert forall|i: int| 0 <= i < asked.len() implies asks_for(
            before,
            #[trigger] params[i],
            id,
            trait_id,
            captured@[i],
        ) by {
            assert(params[i] == asked[i]);
            lemma_asks_for_grown(middle, before, asked[i], id, trait_id, captured@[i]);
        }
        assert forall|i: int| 0 <= i < params.len() implies before.sizes().has_param(
            #[trigger] params[i],
        ) by {
            if i < asked.len() {
                assert(asks_for(before, params[i], id, trait_id, captured@[i]));
            }
        }
    }
    let impl_items = GeneratedImplItems(OrderedHashMap::new());
    let res = db.intern_uninferred_generated_impl(
        UninferredGeneratedImplLongId {
            concrete_trait: concrete_trait_id,
            generic_params,
            impl_items,
        },
    );
    proof {
        assert forall|i: int| 0 <= i < asked.len() implies asks_for(
            *db,
            #[trigger] params[i],
            id,
            trait_id,
            captured@[i],
        ) by {
            lemma_asks_for_grown(before, *db, params[i], id, trait_id, captured@[i]);
        }
        if rival is Some {
            let t = params.last()->NegImpl_0.concrete_trait->Ok_0;
            assert(db.spec_trait_long(t) == before.spec_trait_long(t));
        }
        assert(db.spec_trait_long(concrete_trait_id) == start.spec_trait_long(concrete_trait_id));
    }
    res
}

/// Finds the generated candidate for a concrete trait.
pub fn find_closure_generated_candidate(
    db: &mut SemanticGroup,
    concrete_trait_id: ConcreteTraitId,
) -> (res: Option<UninferredImpl>)
    requires
        old(db).wf(),
        old(db).has_trait(concrete_trait_id),
        closure_ready(*old(db), concrete_trait_id),
    ensures
        final(db).wf(),
        final(db).grown_from(*old(db)),
        match closure_of(*final(db), concrete_trait_id) {
            Some((closure_type, closure)) if is_closure_trait(
                final(db).facts.core,
                final(db).spec_trait_long(concrete_trait_id).trait_id,
            ) => res matches Some(UninferredImpl::GeneratedImpl(id))
                && final(db).has_uninferred_generated(id) && is_closure_impl(
                *final(db),
                concrete_trait_id,
                closure_type,
                closure,
                final(db).spec_uninferred_generated_long(id),
            ),
            _ => res is None,
        },
{
    let ghost start = *db;
    let ghost found = closure_of(start, concrete_trait_id);
    let long = db.trait_long(concrete_trait_id);
    proof {
        assert(db.sizes().has_args(
            db.interned@.concrete_traits[concrete_trait_id.0 as int].generic_args,
        ));
    }
    if long.generic_args.len() == 0 {
        return None;
    }
    let closure_type = match long.generic_args[0] {
        GenericArgumentId::Type(ty) => ty,
        _ => return None,
    };
    let trait_id = long.trait_id;
    assert(db.has_type(closure_type));
    proof {
        assert(db.sizes().has_type_parts(db.interned@.types[closure_type.0 as int]));
    }
    let (param_tys, captured_types, ret_ty) = match db.type_long(closure_type) {
        TypeLongId::Closure(c) => (copy_ids(&c.param_tys), copy_ids(&c.captured_types), c.ret_ty),
        _ => return None,
    };
    let captured = read_captured_once(&captured_types);
    let ghost closure = (found->0).1;
    proof {
        assert(found == Some((closure_type, closure)));
        assert forall|i: int| 0 <= i < captured@.len() implies db.has_type(
            #[trigger] captured@[i],
        ) by {
            lemma_once_members(Seq::empty(), captured_types@, i);
        }
    }
    let info = db.facts.core;
    let res = if trait_id == info.fn_once_trt || trait_id == info.fn_trt {
        call_trait_candidate(
            db,
            concrete_trait_id,
            closure_type,
            &param_tys,
            &captured,
            ret_ty,
            Ghost(closure),
        )
    } else if trait_id == info.drop_trt {
        mem_trait_candidate(db, concrete_trait_id, closure_type, &captured, None, Ghost(closure))
    } else if trait_id == info.destruct_trt {
        let rival = Some(info.drop_trt);
        mem_trait_candidate(db, concrete_trait_id, closure_type, &captured, rival, Ghost(closure))
    } else if trait_id == info.panic_destruct_trt {
        let rival = Some(info.destruct_trt);
        mem_trait_candidate(db, concrete_trait_id, closure_type, &captured, rival, Ghost(closure))
    } else if trait_id == info.copy_trt {
        mem_trait_candidate(db, concrete_trait_id, closure_type, &captured, None, Ghost(closure))
    } else {
        return None;
    };
    proof {
        assert(db.spec_trait_long(concrete_trait_id) == start.spec_trait_long(concrete_trait_id));
        assert(db.spec_type_long(closure_type) == start.spec_type_long(closure_type));
    }
    Some(UninferredImpl::GeneratedImpl(res))
}

// --- Laws ---

/// A closure has one function trait for each trait: two that are made of the same trait, closure
/// and parameters are one.
proof fn lemma_call_trait_unique(
    db: SemanticGroup,
    a: ConcreteTraitId,
    b: ConcreteTraitId,
    trait_id: TraitId,
    closure_type: TypeId,
    closure: ClosureTypeView,
)
    requires
        db.wf(),
        is_call_trait(db, a, trait_id, closure_type, closure),
        is_call_trait(db, b, trait_id, closure_type, closure),
    ensures
        a == b,
{
    let x = db.spec_trait_long(a);
    let y = db.spec_trait_long(b);
    let s = x.generic_args[1]->Type_0;
    let t = y.generic_args[1]->Type_0;
    assert(db.interned@.distinct());
    assert(db.spec_type_long(s) == db.spec_type_long(t));
    assert(db.interned@.types[s.0 as int] == db.interned@.types[t.0 as int]);
    assert(s == t);
    assert(x.generic_args =~= y.generic_args);
    assert(db.interned@.concrete_traits[a.0 as int] == db.interned@.concrete_traits[b.0 as int]);
}

/// The impl of `FnOnce` that is made for a closure forbids just the trait that the impl of `Fn`
/// made for the closure implements: where one of them is usable the other is not.
pub proof fn law_fn_once_gives_way_to_fn(
    db: SemanticGroup,
    once: ConcreteTraitId,
    call: ConcreteTraitId,
    closure_type: TypeId,
    closure: ClosureTypeView,
    once_impl: UninferredGeneratedImplView,
    call_impl: UninferredGeneratedImplView,
)
    requires
        db.wf(),
        db.facts.core.fn_trt != db.facts.core.fn_once_trt,
        db.spec_trait_long(once).trait_id == db.facts.core.fn_once_trt,
        db.spec_trait_long(call).trait_id == db.facts.core.fn_trt,
        is_closure_impl(db, once, closure_type, closure, once_impl),
        is_closure_impl(db, call, closure_type, closure, call_impl),
    ensures
        once_impl.generic_params.len() == 1,
        once_impl.generic_params[0] matches GenericParam::NegImpl(p) && p.concrete_trait == Ok::<
            _,
            DiagnosticAdded,
        >(call_impl.concrete_trait),
{
    let forbidden = once_impl.generic_params[0]->NegImpl_0.concrete_trait->Ok_0;
    lemma_call_trait_unique(
        db,
        forbidden,
        call_impl.concrete_trait,
        db.facts.core.fn_trt,
        closure_type,
        closure,
    );
}

/// An impl of a memory trait that is made for a closure asks for the trait once for each type
/// that the closure captures, whether the closure captures it once or more often.
pub proof fn law_each_captured_type_is_asked_for_once(
    db: SemanticGroup,
    params: Seq<GenericParam>,
    trait_id: TraitId,
    rival: Option<TraitId>,
    closure_type: TypeId,
    closure: ClosureTypeView,
    ty: TypeId,
)
    requires
        are_mem_trait_params(db, params, trait_id, rival, closure_type, closure),
    ensures
        captured_once(closure).no_duplicates(),
        closure.captured_types.contains(ty) ==> exists|i: int|
            0 <= i < params.len() && asks_for(
                db,
                #[trigger] params[i],
                first_param(db, trait_id),
                trait_id,
                ty,
            ),
{
    law_set_extend(Seq::<TypeId>::empty(), closure.captured_types);
    if closure.captured_types.contains(ty) {
        let types = captured_once(closure);
        assert(types.contains(ty));
        let i = choose|i: int| 0 <= i < types.len() && types[i] == ty;
        assert(asks_for(db, params[i], first_param(db, trait_id), trait_id, types[i]));
    }
}

/// Whether a parameter asks for an impl of a trait for a type, or forbids one, under the name of the
/// first parameter of `owner`.
pub open spec fn speaks_of(
    db: SemanticGroup,
    param: GenericParam,
    forbidding: bool,
    owner: TraitId,
    trait_id: TraitId,
    args: Seq<GenericArgumentId>,
) -> bool {
    let named = |id: GenericParamId|
        lookup(db.facts.traits@, owner) matches Some(f) && (f.generic_params matches Ok(params)
            && params@.len() > 0 && params@[0].spec_id() == id);
    let is_of = |t: Maybe<ConcreteTraitId>|
        t matches Ok(t) && t.0 < db.interned@.concrete_traits.len()
            && db.interned@.concrete_traits[t.0 as int].trait_id == trait_id
            && db.interned@.concrete_traits[t.0 as int].generic_args == args;
    if forbidding {
        param matches GenericParam::NegImpl(p) && named(p.id) && is_of(p.concrete_trait)
            && p.type_constraints == TypeConstraints(0)
    } else {
        param matches GenericParam::Impl(p) && named(p.id) && is_of(p.concrete_trait)
            && p.type_constraints == TypeConstraints(0)
    }
}

/// A trait is one of a closure exactly if its first argument is a type, and that is a closure. For
/// six traits of the core library, and no others, the compiler makes an impl for it.
pub proof fn law_closures_have_six_traits(
    db: SemanticGroup,
    id: ConcreteTraitId,
    closure_type: TypeId,
    closure: ClosureTypeView,
    trait_id: TraitId,
)
    ensures
        ({
            let args = db.interned@.concrete_traits[id.0 as int].generic_args;
            closure_of(db, id) == Some((closure_type, closure)) <==> args.len() > 0 && args[0]
                == GenericArgumentId::Type(closure_type)
                && db.interned@.types[closure_type.0 as int] == TypeLongId::<Seq<TypeId>>::Closure(closure)
        }),
        ({
            let core = db.facts.core;
            is_closure_trait(core, trait_id) <==> seq![
                core.fn_once_trt,
                core.fn_trt,
                core.drop_trt,
                core.destruct_trt,
                core.panic_destruct_trt,
                core.copy_trt,
            ].contains(trait_id)
        }),
{
    let core = db.facts.core;
    let six = seq![
        core.fn_once_trt,
        core.fn_trt,
        core.drop_trt,
        core.destruct_trt,
        core.panic_destruct_trt,
        core.copy_trt,
    ];
    assert(six[0] == core.fn_once_trt && six[1] == core.fn_trt && six[2] == core.drop_trt && six[3]
        == core.destruct_trt && six[4] == core.panic_destruct_trt && six[5] == core.copy_trt);
}

/// A closure is called through the trait with the closure and the tuple of its parameters as
/// arguments, and gives back its result as `Output`. It can be called once where it cannot be called
/// often, and often where all that it captures can be copied.
pub proof fn law_closures_are_called_with_their_parameters(
    db: SemanticGroup,
    id: ConcreteTraitId,
    closure_type: TypeId,
    closure: ClosureTypeView,
    imp: UninferredGeneratedImplView,
)
    requires
        is_closure_impl(db, id, closure_type, closure, imp),
        closure_ready(db, id),
        closure_of(db, id) == Some((closure_type, closure)),
        ({
            let trait_id = db.interned@.concrete_traits[id.0 as int].trait_id;
            trait_id == db.facts.core.fn_once_trt || trait_id == db.facts.core.fn_trt
        }),
    ensures
        ({
            let core = db.facts.core;
            let trait_id = db.interned@.concrete_traits[id.0 as int].trait_id;
            let long = db.interned@.concrete_traits[imp.concrete_trait.0 as int];
            &&& long.trait_id == trait_id
            &&& long.generic_args.len() == 2
            &&& long.generic_args[0] == GenericArgumentId::Type(closure_type)
            &&& long.generic_args[1] matches GenericArgumentId::Type(tuple)
                && db.interned@.types[tuple.0 as int] == TypeLongId::<Seq<TypeId>>::Tuple(
                closure.param_tys,
            )
            &&& imp.impl_items.len() == 1
            &&& imp.impl_items[0].1 == closure.ret_ty
            &&& lookup(db.facts.traits@, trait_id) matches Some(f) && (f.types matches Ok(types)
                && lookup(types@, core.output_name) == Some(imp.impl_items[0].0))
            &&& trait_id == core.fn_once_trt ==> {
                &&& imp.generic_params.len() == 1
                &&& exists|args: Seq<GenericArgumentId>| #[trigger]
                    speaks_of(
                        db,
                        imp.generic_params[0],
                        true,
                        trait_id,
                        core.fn_trt,
                        args,
                    ) && args.len() == 2 && args[0] == GenericArgumentId::Type(closure_type)
                        && (args[1] matches GenericArgumentId::Type(tuple)
                        && db.interned@.types[tuple.0 as int] == TypeLongId::<Seq<TypeId>>::Tuple(
                        closure.param_tys,
                    ))
            }
            &&& trait_id != core.fn_once_trt ==> forall|i: int|
                0 <= i < imp.generic_params.len() ==> (#[trigger] imp.generic_params[i]) is Impl
            &&& trait_id != core.fn_once_trt ==> forall|ty: TypeId| #[trigger]
                closure.captured_types.contains(ty) <==> exists|i: int|
                    0 <= i < imp.generic_params.len() && #[trigger] speaks_of(
                        db,
                        imp.generic_params[i],
                        false,
                        core.copy_trt,
                        core.copy_trt,
                        seq![GenericArgumentId::Type(ty)],
                    )
        }),
{
    let core = db.facts.core;
    let trait_id = db.interned@.concrete_traits[id.0 as int].trait_id;
    if trait_id == core.fn_once_trt {
        let t = imp.generic_params[0]->NegImpl_0.concrete_trait->Ok_0;
        assert(speaks_of(
            db,
            imp.generic_params[0],
            true,
            trait_id,
            core.fn_trt,
            db.interned@.concrete_traits[t.0 as int].generic_args,
        ));
    } else {
        lemma_captured_are_asked_for(
            db,
            imp.generic_params,
            core.copy_trt,
            None,
            closure_type,
            closure,
        );
    }
}

/// The parameters of an impl for a closure ask for the trait for each type that is captured, and for
/// no other type.
proof fn lemma_captured_are_asked_for(
    db: SemanticGroup,
    params: Seq<GenericParam>,
    trait_id: TraitId,
    rival: Option<TraitId>,
    closure_type: TypeId,
    closure: ClosureTypeView,
)
    requires
        are_mem_trait_params(db, params, trait_id, rival, closure_type, closure),
        has_first_param(db, trait_id),
    ensures
        forall|i: int|
            0 <= i < params.len() ==> (#[trigger] params[i] is Impl <==> (rival is None || i
                < params.len() - 1)),
        forall|ty: TypeId| #[trigger]
            closure.captured_types.contains(ty) <==> exists|i: int|
                0 <= i < params.len() && #[trigger] speaks_of(
                    db,
                    params[i],
                    false,
                    trait_id,
                    trait_id,
                    seq![GenericArgumentId::Type(ty)],
                ),
{
    let types = captured_once(closure);
    law_set_extend(Seq::<TypeId>::empty(), closure.captured_types);
    assert forall|i: int| 0 <= i < params.len() implies (#[trigger] params[i] is Impl <==> (rival
        is None || i < params.len() - 1)) by {
        if i < types.len() {
            assert(asks_for(db, params[i], first_param(db, trait_id), trait_id, types[i]));
        }
    }
    assert forall|ty: TypeId| #[trigger]
        closure.captured_types.contains(ty) <==> exists|i: int|
            0 <= i < params.len() && #[trigger] speaks_of(
                db,
                params[i],
                false,
                trait_id,
                trait_id,
                seq![GenericArgumentId::Type(ty)],
            ) by {
        let arg = seq![GenericArgumentId::Type(ty)];
        if closure.captured_types.contains(ty) {
            assert(types.contains(ty));
            let i = choose|i: int| 0 <= i < types.len() && types[i] == ty;
            assert(asks_for(db, params[i], first_param(db, trait_id), trait_id, types[i]));
            assert(speaks_of(db, params[i], false, trait_id, trait_id, arg));
        }
        if exists|i: int|
            0 <= i < params.len() && #[trigger] speaks_of(
                db,
                params[i],
                false,
                trait_id,
                trait_id,
                arg,
            ) {
            let i = choose|i: int|
                0 <= i < params.len() && #[trigger] speaks_of(
                    db,
                    params[i],
                    false,
                    trait_id,
                    trait_id,
                    arg,
                );
            assert(i < types.len());
            assert(asks_for(db, params[i], first_param(db, trait_id), trait_id, types[i]));
            assert(arg[0] == GenericArgumentId::Type(ty));
            assert(type_trait(trait_id, types[i]).generic_args[0] == GenericArgumentId::Type(
                types[i],
            ));
            assert(types.contains(types[i]));
        }
    }
}

/// A closure is copied, dropped, destructed or destructed on a panic as all that it captures is: the
/// impl asks for the same trait for each type that is captured, and for no other. A closure that can
/// be dropped is not destructed, and one that can be destructed is not destructed on a panic; for the
/// other two traits nothing is forbidden.
pub proof fn law_closures_are_kept_as_what_they_capture(
    db: SemanticGroup,
    id: ConcreteTraitId,
    closure_type: TypeId,
    closure: ClosureTypeView,
    imp: UninferredGeneratedImplView,
)
    requires
        is_closure_impl(db, id, closure_type, closure, imp),
        closure_ready(db, id),
        closure_of(db, id) == Some((closure_type, closure)),
        ({
            let trait_id = db.interned@.concrete_traits[id.0 as int].trait_id;
            let core = db.facts.core;
            &&& trait_id != core.fn_once_trt
            &&& trait_id != core.fn_trt
            &&& trait_id == core.drop_trt || trait_id == core.copy_trt || trait_id
                == core.destruct_trt || trait_id == core.panic_destruct_trt
            &&& core.drop_trt != core.destruct_trt
            &&& core.drop_trt != core.panic_destruct_trt
            &&& core.drop_trt != core.copy_trt
            &&& core.destruct_trt != core.panic_destruct_trt
            &&& core.destruct_trt != core.copy_trt
            &&& core.panic_destruct_trt != core.copy_trt
        }),
    ensures
        ({
            let core = db.facts.core;
            let trait_id = db.interned@.concrete_traits[id.0 as int].trait_id;
            let params = imp.generic_params;
            let closure_arg = seq![GenericArgumentId::Type(closure_type)];
            &&& imp.concrete_trait == id
            &&& imp.impl_items.len() == 0
            &&& forall|ty: TypeId| #[trigger]
                closure.captured_types.contains(ty) <==> exists|i: int|
                    0 <= i < params.len() && #[trigger] speaks_of(
                        db,
                        params[i],
                        false,
                        trait_id,
                        trait_id,
                        seq![GenericArgumentId::Type(ty)],
                    )
            &&& trait_id == core.drop_trt || trait_id == core.copy_trt ==> forall|i: int|
                0 <= i < params.len() ==> (#[trigger] params[i]) is Impl
            &&& trait_id == core.destruct_trt ==> params.len() > 0 && speaks_of(
                db,
                params.last(),
                true,
                trait_id,
                core.drop_trt,
                closure_arg,
            )
            &&& trait_id == core.panic_destruct_trt ==> params.len() > 0 && speaks_of(
                db,
                params.last(),
                true,
                trait_id,
                core.destruct_trt,
                closure_arg,
            )
            &&& forall|i: int|
                0 <= i < params.len() - 1 ==> (#[trigger] params[i]) is Impl
        }),
{
    let core = db.facts.core;
    let trait_id = db.interned@.concrete_traits[id.0 as int].trait_id;
    lemma_captured_are_asked_for(
        db,
        imp.generic_params,
        trait_id,
        mem_trait_rival(core, trait_id),
        closure_type,
        closure,
    );
}

} // verus!
