//! Where impls that dereference may stand, and whether they go round in a circle.

use vstd::prelude::*;
use vstd::string::StringExecFns;

use crate::collections::{lookup, OrderedHashSet};
use crate::context::{ContextView, ImplLookupContext, ImplOrModuleById};
use crate::db::SemanticGroup;
use crate::declaration::{impl_def_concrete_trait, impl_def_generic_params, recorded_params};
use crate::definition::generic_params_ids;
use crate::deref::{
    is_trait_id, lemma_single_type_grown, lemma_type_trait_impl_grown, read_single_type,
    single_type, single_type_id, single_type_ready, type_trait,
};
use crate::diagnostics::{
    diagnostic, DiagnosticAdded, DiagnosticView, InferenceError, SemanticDiagnostic,
    SemanticDiagnosticKind, SemanticDiagnostics,
};
use crate::ids::{ConcreteTraitId, ImplDefId, ImplId, ImplTypeDefId, TraitId, TypeId};
use crate::model::{GenericArgumentId, ImplLongId};
use crate::text::joined;

verus! {

/// What inference finds for the trait of the one type of an impl.
pub open spec fn single_type_answer(
    db: SemanticGroup,
    impl_def_id: ImplDefId,
    trait_id: TraitId,
) -> Result<ImplId, InferenceError> {
    db.spec_impl_at_context(
        db.spec_impl_def_context(impl_def_id),
        db.type_trait_id(trait_id, single_type(db, impl_def_id)),
    )
}

/// The impl definition that a concrete impl is of.
pub open spec fn definition_of(db: SemanticGroup, imp: ImplId) -> Option<ImplDefId> {
    match db.spec_impl_long(imp) {
        ImplLongId::Concrete(c) => Some(db.spec_concrete_impl_long(c).impl_def_id),
        _ => None,
    }
}

/// The impl that dereferences the type that an impl dereferences to.
pub open spec fn next_deref_impl(
    db: SemanticGroup,
    trait_id: TraitId,
    impl_def_id: ImplDefId,
) -> Option<ImplDefId> {
    match db.type_trait_impl(
        db.spec_impl_def_context(impl_def_id),
        trait_id,
        single_type(db, impl_def_id),
    ) {
        Some(imp) => definition_of(db, imp),
        None => None,
    }
}

/// Whether the impls that the way from one comes by have one type each, until one of them comes
/// again or none follows.
pub open spec fn way_ready(
    db: SemanticGroup,
    trait_id: TraitId,
    impl_def_id: ImplDefId,
    visited: Seq<ImplDefId>,
    fuel: nat,
) -> bool
    decreases fuel,
{
    &&& single_type_ready(db, impl_def_id)
    &&& match next_deref_impl(db, trait_id, impl_def_id) {
        None => true,
        Some(next) => visited.contains(next) || (fuel > 0 && way_ready(
            db,
            trait_id,
            next,
            visited.push(next),
            (fuel - 1) as nat,
        )),
    }
}

/// The first impl that comes again on the way from one, and those that were passed before.
pub open spec fn deref_cycle(
    db: SemanticGroup,
    trait_id: TraitId,
    impl_def_id: ImplDefId,
    visited: Seq<ImplDefId>,
    fuel: nat,
) -> Option<(ImplDefId, Seq<ImplDefId>)>
    decreases fuel,
{
    match next_deref_impl(db, trait_id, impl_def_id) {
        None => None,
        Some(next) => if visited.contains(next) {
            Some((next, visited))
        } else if fuel == 0 {
            None
        } else {
            deref_cycle(db, trait_id, next, visited.push(next), (fuel - 1) as nat)
        },
    }
}

/// The traits of some impls as they are printed.
pub open spec fn trait_texts(db: SemanticGroup, impls: Seq<ImplDefId>) -> Seq<Seq<char>> {
    Seq::new(
        impls.len(),
        |i: int| db.spec_trait_text(db.spec_impl_def_concrete_trait(impls[i])->Ok_0),
    )
}

/// Whether an impl stands next to the trait or to the type that it dereferences.
pub open spec fn in_valid_location(
    db: SemanticGroup,
    impl_def_id: ImplDefId,
    concrete_trait: ConcreteTraitId,
) -> bool {
    let long = db.spec_trait_long(concrete_trait);
    let impl_module = impl_def_id.module_file_id.0;
    ||| impl_module == long.trait_id.module_file_id.0
    ||| lookup(db.facts.type_modules@, long.generic_args[0]->Type_0) == Some(impl_module)
}

/// What is reported of an impl that dereferences.
pub open spec fn deref_diagnostics(
    db: SemanticGroup,
    impl_def_id: ImplDefId,
    concrete_trait: ConcreteTraitId,
) -> Seq<DiagnosticView> {
    let trait_id = db.spec_trait_long(concrete_trait).trait_id;
    if !in_valid_location(db, impl_def_id, concrete_trait) {
        seq![
            diagnostic(
                impl_def_id.stable_ptr,
                SemanticDiagnosticKind::MustBeNextToTypeOrTrait { trait_id },
            ),
        ]
    } else {
        match deref_cycle(db, trait_id, impl_def_id, seq![], db.facts.impl_defs@.len()) {
            Some((repeated, visited)) => seq![
                diagnostic(
                    repeated.stable_ptr,
                    SemanticDiagnosticKind::DerefCycle {
                        deref_chain: joined(trait_texts(db, visited), " -> "@),
                    },
                ),
            ],
            None => seq![],
        }
    }
}

/// Whether an impl that dereferences can be checked: it is for a type, and where it stands in a
/// valid place it has one type, as the impls have that follow it.
pub open spec fn deref_checkable(
    db: SemanticGroup,
    impl_def_id: ImplDefId,
    concrete_trait: ConcreteTraitId,
) -> bool {
    let long = db.spec_trait_long(concrete_trait);
    &&& long.generic_args.len() > 0
    &&& long.generic_args[0] is Type
    &&& in_valid_location(db, impl_def_id, concrete_trait) ==> way_ready(
        db,
        long.trait_id,
        impl_def_id,
        seq![],
        db.facts.impl_defs@.len(),
    )
}

proof fn lemma_definition_of_grown(before: SemanticGroup, after: SemanticGroup, imp: ImplId)
    requires
        before.wf(),
        after.grown_from(before),
        before.has_impl(imp),
    ensures
        definition_of(after, imp) == definition_of(before, imp),
{
    assert(before.interned@.impl_parts(imp.0 as int, before.interned@.impls[imp.0 as int]));
    assert(after.spec_impl_long(imp) == before.spec_impl_long(imp));
    if let ImplLongId::Concrete(c) = before.spec_impl_long(imp) {
        assert(after.spec_concrete_impl_long(c) == before.spec_concrete_impl_long(c));
    }
}

/// What follows an impl stays as more values are interned.
proof fn lemma_next_grown(
    before: SemanticGroup,
    after: SemanticGroup,
    trait_id: TraitId,
    impl_def_id: ImplDefId,
)
    requires
        before.wf(),
        after.wf(),
        after.grown_from(before),
        single_type_ready(before, impl_def_id),
    ensures
        single_type_ready(after, impl_def_id),
        next_deref_impl(after, trait_id, impl_def_id) == next_deref_impl(
            before,
            trait_id,
            impl_def_id,
        ),
{
    lemma_single_type_grown(before, after, impl_def_id);
    let context = before.spec_impl_def_context(impl_def_id);
    let ty = single_type(before, impl_def_id);
    lemma_type_trait_impl_grown(before, after, context, trait_id, ty);
    if let Some(imp) = before.type_trait_impl(context, trait_id, ty) {
        lemma_definition_of_grown(before, after, imp);
    }
}

/// The way from an impl stays as more values are interned.
proof fn lemma_way_grown(
    before: SemanticGroup,
    after: SemanticGroup,
    trait_id: TraitId,
    impl_def_id: ImplDefId,
    visited: Seq<ImplDefId>,
    fuel: nat,
)
    requires
        before.wf(),
        after.wf(),
        after.grown_from(before),
        way_ready(before, trait_id, impl_def_id, visited, fuel),
    ensures
        way_ready(after, trait_id, impl_def_id, visited, fuel),
        deref_cycle(after, trait_id, impl_def_id, visited, fuel) == deref_cycle(
            before,
            trait_id,
            impl_def_id,
            visited,
            fuel,
        ),
    decreases fuel,
{
    lemma_next_grown(before, after, trait_id, impl_def_id);
    if let Some(next) = next_deref_impl(before, trait_id, impl_def_id) {
        if !visited.contains(next) {
            lemma_way_grown(
                before,
                after,
                trait_id,
                next,
                visited.push(next),
                (fuel - 1) as nat,
            );
        }
    }
}

/// An impl that can be checked stays one as more values are interned.
pub proof fn lemma_checkable_grown(
    before: SemanticGroup,
    after: SemanticGroup,
    impl_def_id: ImplDefId,
    concrete_trait: ConcreteTraitId,
)
    requires
        before.wf(),
        after.wf(),
        after.grown_from(before),
        before.has_trait(concrete_trait),
        deref_checkable(before, impl_def_id, concrete_trait),
    ensures
        deref_checkable(after, impl_def_id, concrete_trait),
        deref_diagnostics(after, impl_def_id, concrete_trait) == deref_diagnostics(
            before,
            impl_def_id,
            concrete_trait,
        ),
{
    assert(after.spec_trait_long(concrete_trait) == before.spec_trait_long(concrete_trait));
    if in_valid_location(before, impl_def_id, concrete_trait) {
        let trait_id = before.spec_trait_long(concrete_trait).trait_id;
        let count = before.facts.impl_defs@.len();
        lemma_way_grown(before, after, trait_id, impl_def_id, seq![], count);
        if let Some((_, passed)) = deref_cycle(before, trait_id, impl_def_id, seq![], count) {
            assert(trait_texts(after, passed) =~= trait_texts(before, passed));
        }
    }
}

/// Assuming that an impl has a single impl type, extracts the type, and then infers another impl
/// of a trait based on it. If the inference fails, returns the inference error and the impl type
/// definition for diagnostics.
pub fn get_impl_based_on_single_impl_type(
    db: &mut SemanticGroup,
    impl_def_id: ImplDefId,
    trait_id: TraitId,
) -> (res: Result<ImplId, (InferenceError, ImplTypeDefId)>)
    requires
        old(db).wf(),
        single_type_ready(*old(db), impl_def_id),
    ensures
        final(db).wf(),
        final(db).grown_from(*old(db)),
        single_type_ready(*final(db), impl_def_id),
        final(db).has_type_trait(trait_id, single_type(*final(db), impl_def_id)),
        res == match single_type_answer(*final(db), impl_def_id, trait_id) {
            Ok(imp) => Ok(imp),
            Err(e) => Err((e, single_type_id(*final(db), impl_def_id))),
        },
        res matches Ok(imp) ==> final(db).has_impl(imp),
{
    let ghost before = *db;
    let found = read_single_type(db, impl_def_id);
    let generic_params = impl_def_generic_params(db, impl_def_id);
    match (found, generic_params) {
        (Ok((impl_item_type_id, ty)), Ok(generic_params)) => {
            let lookup_context = ImplLookupContext::new(
                impl_def_id.module_file_id.0,
                generic_params_ids(&generic_params),
            );
            assert(lookup_context@ =~= db.spec_impl_def_context(impl_def_id));
            let concrete_trait = db.intern_type_trait(trait_id, ty);
            proof {
                lemma_single_type_grown(before, *db, impl_def_id);
            }
            match db.get_impl_at_context(lookup_context, concrete_trait) {
                Ok(imp) => Ok(imp),
                Err(err) => Err((err, impl_item_type_id)),
            }
        },
        _ => {
            assert(false);
            vstd::pervasive::unreached()
        },
    }
}

/// Follows the impls that dereference until one comes again.
fn find_deref_cycle(
    db: &mut SemanticGroup,
    trait_id: TraitId,
    impl_def_id: ImplDefId,
    visited: OrderedHashSet<ImplDefId>,
    fuel: usize,
) -> (res: Option<(ImplDefId, OrderedHashSet<ImplDefId>)>)
    requires
        old(db).wf(),
        way_ready(*old(db), trait_id, impl_def_id, visited@, fuel as nat),
        visited@.no_duplicates(),
        forall|i: int|
            0 <= i < visited@.len() ==> single_type_ready(*old(db), #[trigger] visited@[i]),
    ensures
        final(db).wf(),
        final(db).grown_from(*old(db)),
        match res {
            Some((repeated, passed)) => deref_cycle(
                *final(db),
                trait_id,
                impl_def_id,
                visited@,
                fuel as nat,
            ) == Some((repeated, passed@)) && forall|i: int|
                0 <= i < passed@.len() ==> single_type_ready(*final(db), #[trigger] passed@[i]),
            None => deref_cycle(
                *final(db),
                trait_id,
                impl_def_id,
                visited@,
                fuel as nat,
            ) is None,
        },
    decreases fuel,
{
    let ghost before = *db;
    let found = get_impl_based_on_single_impl_type(db, impl_def_id, trait_id);
    let ghost middle = *db;
    proof {
        lemma_way_grown(before, middle, trait_id, impl_def_id, visited@, fuel as nat);
        assert forall|i: int| 0 <= i < visited@.len() implies single_type_ready(
            middle,
            #[trigger] visited@[i],
        ) by {
            lemma_single_type_grown(before, middle, visited@[i]);
        }
    }
    // Inference errors are handled when the impl is in actual use. In here we only check for
    // cycles.
    let imp = match found {
        Ok(imp) => imp,
        Err(_) => return None,
    };
    proof {
        assert(middle.interned@.impl_parts(imp.0 as int, middle.interned@.impls[imp.0 as int]));
    }
    let next = match db.impl_long(imp) {
        ImplLongId::Concrete(concrete_impl_id) => concrete_impl_id.impl_def_id(db),
        _ => return None,
    };
    assert(next_deref_impl(middle, trait_id, impl_def_id) == Some(next));
    if visited.contains(&next) {
        return Some((next, visited));
    }
    let mut visited_now = visited;
    visited_now.insert(next);
    proof {
        assert(visited_now@ == visited@.push(next));
        assert(way_ready(middle, trait_id, next, visited_now@, (fuel - 1) as nat));
        assert forall|i: int| 0 <= i < visited_now@.len() implies single_type_ready(
            middle,
            #[trigger] visited_now@[i],
        ) by {
            if i < visited@.len() {
                assert(visited_now@[i] == visited@[i]);
            }
        }
        assert(visited_now@.no_duplicates());
    }
    let res = find_deref_cycle(db, trait_id, next, visited_now, fuel - 1);
    proof {
        lemma_next_grown(middle, *db, trait_id, impl_def_id);
    }
    res
}

/// Joins the traits of some impls, as they are printed.
fn join_trait_texts(db: &SemanticGroup, impls: &OrderedHashSet<ImplDefId>) -> (res: String)
    requires
        db.wf(),
        forall|i: int|
            0 <= i < impls@.len() ==> single_type_ready(*db, #[trigger] impls@[i]),
    ensures
        res@ == joined(trait_texts(*db, impls@), " -> "@),
{
    let mut res = String::new();
    let ghost texts = trait_texts(*db, impls@);
    let count: usize = impls.len();
    let mut i: usize = 0;
    assert(texts.take(0) =~= Seq::empty());
    assert(res@ =~= joined(texts.take(0), " -> "@));
    while i < count
        invariant
            db.wf(),
            forall|i: int|
                0 <= i < impls@.len() ==> single_type_ready(*db, #[trigger] impls@[i]),
            texts == trait_texts(*db, impls@),
            i <= count == impls@.len(),
            res@ == joined(texts.take(i as int), " -> "@),
        decreases count - i,
    {
        assert(texts.take(i + 1).drop_last() =~= texts.take(i as int));
        assert(single_type_ready(*db, impls@[i as int]));
        if i > 0 {
            res.append(" -> ");
        }
        if let Ok(concrete_trait) = impl_def_concrete_trait(db, *impls.at(i)) {
            res.append(db.trait_text(concrete_trait).as_str());
        }
        i += 1;
        assert(res@ =~= joined(texts.take(i as int), " -> "@));
    }
    assert(texts.take(count as int) =~= texts);
    res
}

/// Reports diagnostic for a deref impl.
pub fn deref_impl_diagnostics(
    db: &mut SemanticGroup,
    impl_def_id: ImplDefId,
    concrete_trait: ConcreteTraitId,
    diagnostics: &mut SemanticDiagnostics,
)
    requires
        old(db).wf(),
        old(db).has_trait(concrete_trait),
        deref_checkable(*old(db), impl_def_id, concrete_trait),
    ensures
        final(db).wf(),
        final(db).grown_from(*old(db)),
        deref_checkable(*final(db), impl_def_id, concrete_trait),
        deref_diagnostics(*final(db), impl_def_id, concrete_trait) == deref_diagnostics(
            *old(db),
            impl_def_id,
            concrete_trait,
        ),
        final(diagnostics)@ == old(diagnostics)@ + deref_diagnostics(
            *final(db),
            impl_def_id,
            concrete_trait,
        ),
        in_valid_location(*final(db), impl_def_id, concrete_trait) && final(diagnostics)@
            == old(diagnostics)@ ==> forall|n: nat|
            (#[trigger] deref_cycle(
                *final(db),
                final(db).spec_trait_long(concrete_trait).trait_id,
                impl_def_id,
                seq![],
                n,
            )) is None,
{
    let ghost before = *db;
    let ghost reported = diagnostics@;
    assert(reported + Seq::<DiagnosticView>::empty() =~= reported);
    let deref_trait_id = db.trait_long(concrete_trait).trait_id;
    let impl_module = impl_def_id.module_file_id.0;
    let mut impl_in_valid_location = impl_module == deref_trait_id.module_file_id.0;
    if let GenericArgumentId::Type(deref_ty) = db.trait_long(concrete_trait).generic_args[0] {
        if let Some(module_id) = db.facts.type_modules.get(&deref_ty) {
            if *module_id == impl_module {
                impl_in_valid_location = true;
            }
        }
    }
    assert(impl_in_valid_location == in_valid_location(*db, impl_def_id, concrete_trait));
    if !impl_in_valid_location {
        diagnostics.report(
            impl_def_id.stable_ptr,
            SemanticDiagnosticKind::MustBeNextToTypeOrTrait { trait_id: deref_trait_id },
        );
        assert(diagnostics@ =~= reported + deref_diagnostics(*db, impl_def_id, concrete_trait));
        return ;
    }
    let visited: OrderedHashSet<ImplDefId> = OrderedHashSet::new();
    let count: usize = db.facts.impl_defs.len();
    let cycle = find_deref_cycle(db, deref_trait_id, impl_def_id, visited, count);
    proof {
        assert(db.spec_trait_long(concrete_trait) == before.spec_trait_long(concrete_trait));
        lemma_checkable_grown(before, *db, impl_def_id, concrete_trait);
        if cycle is None {
            assert forall|n: nat|
                (#[trigger] deref_cycle(*db, deref_trait_id, impl_def_id, seq![], n)) is None by {
                law_no_deref_cycle_is_missed(*db, deref_trait_id, impl_def_id, n);
            }
        }
    }
    if let Some((repeated, passed)) = cycle {
        let deref_chain = join_trait_texts(db, &passed);
        diagnostics.report(
            repeated.stable_ptr,
            SemanticDiagnosticKind::DerefCycle { deref_chain },
        );
    }
    assert(diagnostics@ =~= reported + deref_diagnostics(*db, impl_def_id, concrete_trait));
}

// --- Laws ---

/// The impl before one in a list, which is `start` before the first.
pub open spec fn one_before(start: ImplDefId, impls: Seq<ImplDefId>, i: int) -> ImplDefId {
    if i == 0 {
        start
    } else {
        impls[i - 1]
    }
}

/// Whether each impl of a list follows the one before it, and the first follows `start`.
pub open spec fn follow_each_other(
    db: SemanticGroup,
    trait_id: TraitId,
    start: ImplDefId,
    impls: Seq<ImplDefId>,
) -> bool {
    forall|i: int|
        0 <= i < impls.len() ==> next_deref_impl(
            db,
            trait_id,
            #[trigger] one_before(start, impls, i),
        ) == Some(impls[i])
}

/// Whether the impls that are passed make up a cycle: they follow each other, none of them comes
/// twice, and the last of them is followed by one of them.
pub open spec fn is_cycle(
    db: SemanticGroup,
    trait_id: TraitId,
    start: ImplDefId,
    repeated: ImplDefId,
    passed: Seq<ImplDefId>,
) -> bool {
    &&& passed.len() > 0
    &&& passed.no_duplicates()
    &&& passed.contains(repeated)
    &&& follow_each_other(db, trait_id, start, passed)
    &&& next_deref_impl(db, trait_id, passed.last()) == Some(repeated)
}

/// A cycle that is reported is one: the impls follow each other, none of them comes twice, and
/// the last of them is followed by one of them.
pub proof fn law_reported_deref_cycles_are_cycles(
    db: SemanticGroup,
    trait_id: TraitId,
    impl_def_id: ImplDefId,
    fuel: nat,
)
    ensures
        deref_cycle(db, trait_id, impl_def_id, seq![], fuel) matches Some((repeated, passed))
            ==> is_cycle(db, trait_id, impl_def_id, repeated, passed),
{
    lemma_cycle_from(db, trait_id, impl_def_id, impl_def_id, seq![], fuel);
}

/// The impl that is left after some have been passed.
spec fn last_passed(start: ImplDefId, passed: Seq<ImplDefId>) -> ImplDefId {
    if passed.len() == 0 {
        start
    } else {
        passed.last()
    }
}

/// One more impl follows.
proof fn lemma_one_more_follows(
    db: SemanticGroup,
    trait_id: TraitId,
    start: ImplDefId,
    passed: Seq<ImplDefId>,
    next: ImplDefId,
)
    requires
        follow_each_other(db, trait_id, start, passed),
        next_deref_impl(db, trait_id, last_passed(start, passed)) == Some(next),
    ensures
        follow_each_other(db, trait_id, start, passed.push(next)),
{
    let now = passed.push(next);
    assert forall|i: int| 0 <= i < now.len() implies next_deref_impl(
        db,
        trait_id,
        #[trigger] one_before(start, now, i),
    ) == Some(now[i]) by {
        if i < passed.len() {
            assert(one_before(start, now, i) == one_before(start, passed, i));
        } else {
            assert(one_before(start, now, i) == last_passed(start, passed));
        }
    }
}

proof fn lemma_cycle_from(
    db: SemanticGroup,
    trait_id: TraitId,
    start: ImplDefId,
    impl_def_id: ImplDefId,
    visited: Seq<ImplDefId>,
    fuel: nat,
)
    requires
        visited.no_duplicates(),
        follow_each_other(db, trait_id, start, visited),
        impl_def_id == last_passed(start, visited),
    ensures
        deref_cycle(db, trait_id, impl_def_id, visited, fuel) matches Some((repeated, passed))
            ==> is_cycle(db, trait_id, start, repeated, passed),
    decreases fuel,
{
    if let Some(next) = next_deref_impl(db, trait_id, impl_def_id) {
        if !visited.contains(next) && fuel > 0 {
            lemma_one_more_follows(db, trait_id, start, visited, next);
            lemma_cycle_from(db, trait_id, start, next, visited.push(next), (fuel - 1) as nat);
        }
    }
}

/// The impl that some steps lead to from one.
pub open spec fn deref_way(
    db: SemanticGroup,
    trait_id: TraitId,
    impl_def_id: ImplDefId,
    steps: nat,
) -> Option<ImplDefId>
    decreases steps,
{
    if steps == 0 {
        Some(impl_def_id)
    } else {
        match next_deref_impl(db, trait_id, impl_def_id) {
            Some(next) => deref_way(db, trait_id, next, (steps - 1) as nat),
            None => None,
        }
    }
}

/// In a cycle an impl always follows.
proof fn lemma_cycle_is_endless(
    db: SemanticGroup,
    trait_id: TraitId,
    start: ImplDefId,
    repeated: ImplDefId,
    passed: Seq<ImplDefId>,
    impl_def_id: ImplDefId,
    steps: nat,
)
    requires
        is_cycle(db, trait_id, start, repeated, passed),
        impl_def_id == start || passed.contains(impl_def_id),
    ensures
        deref_way(db, trait_id, impl_def_id, steps) is Some,
    decreases steps,
{
    if steps > 0 {
        let next = if passed.contains(impl_def_id) {
            let i = choose|i: int| 0 <= i < passed.len() && passed[i] == impl_def_id;
            if i == passed.len() - 1 {
                repeated
            } else {
                assert(one_before(start, passed, i + 1) == passed[i]);
                passed[i + 1]
            }
        } else {
            assert(one_before(start, passed, 0) == start);
            passed[0]
        };
        lemma_cycle_is_endless(
            db,
            trait_id,
            start,
            repeated,
            passed,
            next,
            (steps - 1) as nat,
        );
    }
}

/// Where no cycle is found, an impl is reached that none follows.
proof fn lemma_way_without_cycle_ends(
    db: SemanticGroup,
    trait_id: TraitId,
    impl_def_id: ImplDefId,
    visited: Seq<ImplDefId>,
    fuel: nat,
)
    requires
        way_ready(db, trait_id, impl_def_id, visited, fuel),
        deref_cycle(db, trait_id, impl_def_id, visited, fuel) is None,
    ensures
        deref_way(db, trait_id, impl_def_id, fuel + 1) is None,
    decreases fuel,
{
    if let Some(next) = next_deref_impl(db, trait_id, impl_def_id) {
        lemma_way_without_cycle_ends(
            db,
            trait_id,
            next,
            visited.push(next),
            (fuel - 1) as nat,
        );
    }
}

/// A cycle is reported exactly where the way from an impl never ends.
pub proof fn law_deref_cycles_are_endless_ways(
    db: SemanticGroup,
    trait_id: TraitId,
    impl_def_id: ImplDefId,
)
    requires
        way_ready(db, trait_id, impl_def_id, seq![], db.facts.impl_defs@.len()),
    ensures
        deref_cycle(db, trait_id, impl_def_id, seq![], db.facts.impl_defs@.len()) is Some
            <==> forall|steps: nat|
            (#[trigger] deref_way(db, trait_id, impl_def_id, steps)) is Some,
{
    let n = db.facts.impl_defs@.len();
    match deref_cycle(db, trait_id, impl_def_id, seq![], n) {
        Some((repeated, passed)) => {
            law_reported_deref_cycles_are_cycles(db, trait_id, impl_def_id, n);
            assert forall|steps: nat|
                (#[trigger] deref_way(db, trait_id, impl_def_id, steps)) is Some by {
                lemma_cycle_is_endless(
                    db,
                    trait_id,
                    impl_def_id,
                    repeated,
                    passed,
                    impl_def_id,
                    steps,
                );
            }
        },
        None => {
            lemma_way_without_cycle_ends(db, trait_id, impl_def_id, seq![], n);
        },
    }
}

/// No cycle is missed: where none is found after as many impls as there are, there is none.
pub proof fn law_no_deref_cycle_is_missed(
    db: SemanticGroup,
    trait_id: TraitId,
    impl_def_id: ImplDefId,
    fuel: nat,
)
    requires
        way_ready(db, trait_id, impl_def_id, seq![], db.facts.impl_defs@.len()),
        deref_cycle(db, trait_id, impl_def_id, seq![], db.facts.impl_defs@.len()) is None,
    ensures
        deref_cycle(db, trait_id, impl_def_id, seq![], fuel) is None,
{
    lemma_no_cycle_is_missed(
        db,
        trait_id,
        impl_def_id,
        seq![],
        db.facts.impl_defs@.len(),
        fuel,
    );
}

proof fn lemma_no_cycle_is_missed(
    db: SemanticGroup,
    trait_id: TraitId,
    impl_def_id: ImplDefId,
    visited: Seq<ImplDefId>,
    rest: nat,
    fuel: nat,
)
    requires
        way_ready(db, trait_id, impl_def_id, visited, rest),
        deref_cycle(db, trait_id, impl_def_id, visited, rest) is None,
    ensures
        deref_cycle(db, trait_id, impl_def_id, visited, fuel) is None,
    decreases rest,
{
    if let Some(next) = next_deref_impl(db, trait_id, impl_def_id) {
        if fuel > 0 {
            lemma_no_cycle_is_missed(
                db,
                trait_id,
                next,
                visited.push(next),
                (rest - 1) as nat,
                (fuel - 1) as nat,
            );
        }
    }
}

/// An impl that dereferences has to stand in the module of the trait or in that of the type; where
/// it does not, that is all that is reported of it, and where it does, it is never reported.
pub proof fn law_dereferences_stand_next_to_the_trait_or_the_type(
    db: SemanticGroup,
    impl_def_id: ImplDefId,
    concrete_trait: ConcreteTraitId,
    ty: TypeId,
)
    requires
        db.interned@.concrete_traits[concrete_trait.0 as int].generic_args.len() > 0,
        db.interned@.concrete_traits[concrete_trait.0 as int].generic_args[0]
            == GenericArgumentId::Type(ty),
    ensures
        ({
            let trait_id = db.interned@.concrete_traits[concrete_trait.0 as int].trait_id;
            let reported = deref_diagnostics(db, impl_def_id, concrete_trait);
            let misplaced: DiagnosticView = SemanticDiagnostic {
                stable_ptr: impl_def_id.stable_ptr,
                kind: SemanticDiagnosticKind::MustBeNextToTypeOrTrait { trait_id },
            };
            let module = impl_def_id.module_file_id.0;
            if module == trait_id.module_file_id.0 || lookup(db.facts.type_modules@, ty) == Some(
                module,
            ) {
                !reported.contains(misplaced)
            } else {
                reported == seq![misplaced]
            }
        }),
{
    if in_valid_location(db, impl_def_id, concrete_trait) {
        let reported = deref_diagnostics(db, impl_def_id, concrete_trait);
        assert forall|i: int| 0 <= i < reported.len() implies (#[trigger] reported[i]).kind
            is DerefCycle by {}
    }
}

/// Whether a text lists the traits of some impls, with arrows between them.
pub open spec fn lists_traits_of(
    db: SemanticGroup,
    impls: Seq<ImplDefId>,
    text: Seq<char>,
) -> bool {
    let arrow = " -> "@;
    exists|texts: Seq<Seq<char>>| #[trigger]
        joined(texts, arrow) == text && texts.len() == impls.len() && forall|
            i: int,
        |
            0 <= i < impls.len() && db.spec_impl_def_concrete_trait(#[trigger] impls[i]) is Ok
                ==> texts[i] == match lookup(
                db.facts.trait_texts@,
                db.spec_impl_def_concrete_trait(impls[i])->Ok_0,
            ) {
                Some(t) => t@,
                None => seq![],
            }
}

/// Of an impl that dereferences and stands in a valid place, at most one thing is reported: that the
/// impls that follow it make up a cycle, at the impl that comes again, with the traits of all that
/// were passed. It is reported exactly where there is always one more impl that follows.
pub proof fn law_deref_cycles_are_reported(
    db: SemanticGroup,
    impl_def_id: ImplDefId,
    concrete_trait: ConcreteTraitId,
)
    requires
        deref_checkable(db, impl_def_id, concrete_trait),
        ({
            let long = db.interned@.concrete_traits[concrete_trait.0 as int];
            ||| impl_def_id.module_file_id.0 == long.trait_id.module_file_id.0
            ||| lookup(db.facts.type_modules@, long.generic_args[0]->Type_0) == Some(
                impl_def_id.module_file_id.0,
            )
        }),
    ensures
        ({
            let trait_id = db.interned@.concrete_traits[concrete_trait.0 as int].trait_id;
            let reported = deref_diagnostics(db, impl_def_id, concrete_trait);
            &&& reported.len() <= 1
            &&& reported.len() == 1 <==> forall|steps: nat|
                (#[trigger] deref_way(db, trait_id, impl_def_id, steps)) is Some
            &&& reported.len() == 1 ==> exists|repeated: ImplDefId, passed: Seq<ImplDefId>| #[trigger]
                is_cycle(db, trait_id, impl_def_id, repeated, passed) && reported[0].stable_ptr
                    == repeated.stable_ptr && (reported[0].kind matches
                    SemanticDiagnosticKind::DerefCycle { deref_chain } && lists_traits_of(
                    db,
                    passed,
                    deref_chain,
                ))
        }),
{
    let trait_id = db.interned@.concrete_traits[concrete_trait.0 as int].trait_id;
    let n = db.facts.impl_defs@.len();
    law_deref_cycles_are_endless_ways(db, trait_id, impl_def_id);
    if let Some((repeated, passed)) = deref_cycle(db, trait_id, impl_def_id, seq![], n) {
        law_reported_deref_cycles_are_cycles(db, trait_id, impl_def_id, n);
        let texts = trait_texts(db, passed);
        let text = joined(texts, " -> "@);
        assert(lists_traits_of(db, passed, text));
        assert(is_cycle(db, trait_id, impl_def_id, repeated, passed));
    }
}

/// The impl that follows one is the definition of the concrete impl that inference is recorded to
/// find, in the context of the first, for the type that the first dereferences to.
pub proof fn law_impls_follow_by_the_type_they_dereference_to(
    db: SemanticGroup,
    trait_id: TraitId,
    impl_def_id: ImplDefId,
    written: TypeId,
    t: ConcreteTraitId,
)
    requires
        db.wf(),
        single_type_ready(db, impl_def_id),
        db.spec_definition(impl_def_id) matches Ok(d) && (db.spec_resolved_type(d.types[0].0)
            == Ok::<_, DiagnosticAdded>(written)),
        t.0 < db.interned@.concrete_traits.len(),
        db.interned@.concrete_traits[t.0 as int].trait_id == trait_id,
        db.interned@.concrete_traits[t.0 as int].generic_args == seq![
            GenericArgumentId::Type(written),
        ],
    ensures
        ({
            let params = recorded_params(db, impl_def_id);
            let context = ContextView {
                modules_and_impls: seq![ImplOrModuleById::Module(impl_def_id.module_file_id.0)],
                generic_params: Seq::new(params.len(), |i: int| params[i].spec_id()),
            };
            next_deref_impl(db, trait_id, impl_def_id) == match lookup(
                db.facts.impl_answers@,
                (context, t),
            ) {
                Some(Ok(imp)) => match db.interned@.impls[imp.0 as int] {
                    ImplLongId::Concrete(c) => Some(
                        db.interned@.concrete_impls[c.0 as int].impl_def_id,
                    ),
                    _ => None,
                },
                _ => None,
            }
        }),
{
    let params = recorded_params(db, impl_def_id);
    let context = ContextView {
        modules_and_impls: seq![ImplOrModuleById::Module(impl_def_id.module_file_id.0)],
        generic_params: Seq::new(params.len(), |i: int| params[i].spec_id()),
    };
    let made = db.spec_impl_def_context(impl_def_id);
    assert(made.generic_params =~= context.generic_params);
    assert(made.modules_and_impls =~= context.modules_and_impls);
    let long = type_trait(trait_id, written);
    assert(db.interned@.concrete_traits[t.0 as int] == long);
    assert(is_trait_id(db.interned@.concrete_traits, long, t));
    let id = db.type_trait_id(trait_id, written);
    assert(db.interned@.concrete_traits[id.0 as int] == db.interned@.concrete_traits[t.0 as int]);
    assert(id.0 == t.0);
}

} // verus!
