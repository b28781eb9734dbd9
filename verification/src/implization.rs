//! The types that impls give for trait types.

use vstd::prelude::*;

use crate::collections::{has_key, lookup};
use crate::db::SemanticGroup;
use crate::declaration::{
    law_concrete_impls_give_parameters_their_arguments, recorded_params,
};
use crate::definition::{
    is_last_of_id, is_last_of_name, is_written, law_definitions_list_what_is_written,
    lemma_definition_grown, names_item, written_items,
};
use crate::diagnostics::{skip_diagnostic, DiagnosticAdded, Maybe};
use crate::ids::{
    ConcreteImplId, ImplDefId, ImplId, ImplTypeDefId, SmolStrId, TraitTypeId, TypeId,
};
use crate::item_constants::lemma_item_belongs;
use crate::item_impls::{
    concrete_implized_impl, impl_impl_concrete_implized, impl_impl_ready, is_implized_impl,
};
use crate::item_types::impl_type_def_resolved_type;
use crate::model::{GenericArgumentId, ImplImplId, ImplLongId, ImplTypeId, TypeLongId};
use crate::queries::made_of;
use crate::selectors::impl_type_by_trait_type;
use crate::substitution::SubstitutionView;
use crate::syntax::{ImplItem, ItemImpl};

verus! {

impl SemanticGroup {
    /// Whether the item of an impl that has the name of a trait type is a type, and the impl is
    /// one of the trait.
    pub open spec fn provides_type(self, impl_def_id: ImplDefId, id: TraitTypeId) -> bool {
        &&& self.definable(impl_def_id)
        &&& self.implements(impl_def_id, id.trait_id)
        &&& self.spec_impl_item_by_name(impl_def_id, id.name) matches Ok(Some(item))
            ==> item is Type
    }

    /// The type that an impl gives for a trait type.
    pub open spec fn spec_implized_type(self, impl_def_id: ImplDefId, id: TraitTypeId) -> Maybe<
        TypeId,
    > {
        match self.spec_impl_type_by_trait_type(impl_def_id, id) {
            Ok(def) => self.spec_resolved_type(def),
            Err(e) => Err(e),
        }
    }
}

/// The type that an impl gives for a trait type.
pub fn trait_type_implized_by_context(
    db: &SemanticGroup,
    trait_type_id: TraitTypeId,
    impl_def_id: ImplDefId,
) -> (res: Maybe<TypeId>)
    requires
        db.wf(),
        db.provides_type(impl_def_id, trait_type_id),
    ensures
        res == db.spec_implized_type(impl_def_id, trait_type_id),
        db.sizes().has_maybe_type(res),
{
    proof {
        lemma_item_belongs(*db, impl_def_id, trait_type_id.name);
    }
    match impl_type_by_trait_type(db, impl_def_id, trait_type_id) {
        Ok(impl_type_def_id) => impl_type_def_resolved_type(db, impl_type_def_id),
        Err(e) => Err(e),
    }
}

/// The same where the type depends on itself.
pub fn trait_type_implized_by_context_cycle(
    db: &SemanticGroup,
    trait_type_id: TraitTypeId,
    impl_def_id: ImplDefId,
) -> (res: Maybe<TypeId>)
    requires
        db.wf(),
        db.provides_type(impl_def_id, trait_type_id),
    ensures
        res == db.spec_implized_type(impl_def_id, trait_type_id),
        db.sizes().has_maybe_type(res),
{
    trait_type_implized_by_context(db, trait_type_id, impl_def_id)
}

/// The type that a concrete impl gives for a trait type, with its arguments in place.
pub open spec fn concrete_impl_type(
    db: SemanticGroup,
    imp: ImplId,
    c: ConcreteImplId,
    ty: TraitTypeId,
) -> Maybe<TypeId> {
    match (
        db.spec_implized_type(db.spec_concrete_impl_long(c).impl_def_id, ty),
        db.spec_impl_substitution(imp, c),
    ) {
        (Ok(ty), Ok(s)) => db.spec_substitute_type(s, ty),
        _ => Err(DiagnosticAdded),
    }
}

/// Whether a type is that item of an impl, left as it is.
pub open spec fn is_impl_type(db: SemanticGroup, id: ImplTypeId, res: Maybe<TypeId>) -> bool {
    res matches Ok(ty) && db.has_type(ty) && (db.spec_type_long(ty) matches TypeLongId::ImplType(i)
        && i == id)
}

/// The type that an item of an impl stands for, given the impl that an impl item stands for.
pub open spec fn is_implized_type_of(
    db: SemanticGroup,
    id: ImplTypeId,
    implized: Maybe<ImplId>,
    res: Maybe<TypeId>,
) -> bool {
    match implized {
        Ok(imp) => match db.spec_impl_long(imp) {
            ImplLongId::Concrete(c) => res == concrete_impl_type(db, imp, c, id.ty),
            _ => is_impl_type(db, id, res),
        },
        Err(_) => res is Err,
    }
}

/// The type that a type of an impl stands for: that of a concrete impl is looked up and
/// substituted, that of a generated impl is the one it was made with, and any other stays a type
/// of the impl.
pub open spec fn is_implized_type(db: SemanticGroup, id: ImplTypeId, res: Maybe<TypeId>) -> bool {
    match db.spec_impl_long(id.impl_id) {
        ImplLongId::Concrete(c) => res == concrete_impl_type(db, id.impl_id, c, id.ty),
        ImplLongId::ImplImpl(item) => exists|implized: Maybe<ImplId>|
            #[trigger] is_implized_impl(db, item, false, implized) && is_implized_type_of(
                db,
                id,
                implized,
                res,
            ),
        ImplLongId::GeneratedImpl(g) => res == Ok::<_, DiagnosticAdded>(
            lookup(db.spec_generated_long(g).impl_items, id.ty)->0,
        ),
        _ => is_impl_type(db, id, res),
    }
}

/// Whether the impl that an impl item stands for provides a type, where it is a concrete one; it
/// can be one where it is the item of a concrete impl only.
pub open spec fn implized_type_ready(db: SemanticGroup, item: ImplImplId, ty: TraitTypeId) -> bool {
    db.spec_impl_long(item.impl_id) matches ImplLongId::Concrete(c) ==> (concrete_implized_impl(
        db,
        item,
        c,
        false,
    ) matches Ok(imp) ==> (db.spec_impl_long(imp) matches ImplLongId::Concrete(found)
        ==> db.provides_type(db.spec_concrete_impl_long(found).impl_def_id, ty)))
}

/// Whether a type of an impl can be looked up: a concrete impl provides it, a generated impl was
/// made with it, and an impl item stands for one of these.
pub open spec fn type_ready(db: SemanticGroup, id: ImplTypeId) -> bool {
    &&& db.has_impl(id.impl_id)
    &&& match db.spec_impl_long(id.impl_id) {
        ImplLongId::Concrete(c) => db.provides_type(
            db.spec_concrete_impl_long(c).impl_def_id,
            id.ty,
        ),
        ImplLongId::ImplImpl(item) => impl_impl_ready(db, item) && implized_type_ready(
            db,
            item,
            id.ty,
        ),
        ImplLongId::GeneratedImpl(g) => has_key(db.spec_generated_long(g).impl_items, id.ty),
        _ => true,
    }
}

/// What the impl that an impl item stands for provides, it provides as more values are interned.
proof fn lemma_implized_type_ready_grown(
    before: SemanticGroup,
    after: SemanticGroup,
    item: ImplImplId,
    ty: TraitTypeId,
    imp: ImplId,
)
    requires
        before.wf(),
        after.wf(),
        after.grown_from(before),
        before.has_impl(item.impl_id),
        implized_type_ready(before, item, ty),
        is_implized_impl(after, item, false, Ok(imp)),
        before.spec_impl_long(item.impl_id) matches ImplLongId::Concrete(c) ==> before.has_impl(imp)
            && concrete_implized_impl(before, item, c, false) == Ok::<_, DiagnosticAdded>(imp),
    ensures
        after.spec_impl_long(imp) matches ImplLongId::Concrete(found) ==> after.provides_type(
            after.spec_concrete_impl_long(found).impl_def_id,
            ty,
        ),
{
    assert(after.spec_impl_long(item.impl_id) == before.spec_impl_long(item.impl_id));
    if before.spec_impl_long(item.impl_id) is Concrete {
        assert(before.interned@.impl_parts(imp.0 as int, before.interned@.impls[imp.0 as int]));
        assert(after.spec_impl_long(imp) == before.spec_impl_long(imp));
        if let ImplLongId::Concrete(found) = before.spec_impl_long(imp) {
            assert(after.spec_concrete_impl_long(found) == before.spec_concrete_impl_long(found));
            lemma_definition_grown(
                before,
                after,
                before.spec_concrete_impl_long(found).impl_def_id,
            );
        }
    }
}

/// Looks up the type that a concrete impl gives for a trait type.
fn concrete_type(
    db: &SemanticGroup,
    imp: ImplId,
    concrete_impl: ConcreteImplId,
    ty: TraitTypeId,
) -> (res: Maybe<TypeId>)
    requires
        db.wf(),
        db.has_concrete_impl(concrete_impl),
        db.provides_type(db.spec_concrete_impl_long(concrete_impl).impl_def_id, ty),
    ensures
        res == concrete_impl_type(*db, imp, concrete_impl, ty),
        db.sizes().has_maybe_type(res),
{
    let impl_def_id = concrete_impl.impl_def_id(db);
    let ty = match trait_type_implized_by_context(db, ty, impl_def_id) {
        Ok(ty) => ty,
        Err(e) => return Err(e),
    };
    match db.impl_substitution(imp, concrete_impl) {
        Ok(substitution) => db.substitute_type(&substitution, ty),
        Err(e) => Err(e),
    }
}

/// The type that a type of an impl stands for.
pub fn impl_type_concrete_implized(db: &mut SemanticGroup, impl_type_id: ImplTypeId) -> (res: Maybe<
    TypeId,
>)
    requires
        old(db).wf(),
        type_ready(*old(db), impl_type_id),
    ensures
        final(db).wf(),
        final(db).grown_from(*old(db)),
        is_implized_type(*final(db), impl_type_id, res),
        final(db).sizes().has_maybe_type(res),
{
    proof {
        reveal(crate::db::SemanticFacts::valid);
    }
    let ghost before = *db;
    let impl_id = impl_type_id.impl_id;
    proof {
        assert(db.interned@.impl_parts(impl_id.0 as int, db.interned@.impls[impl_id.0 as int]));
    }
    match db.impl_long(impl_id) {
        ImplLongId::Concrete(concrete_impl) => concrete_type(
            db,
            impl_id,
            concrete_impl,
            impl_type_id.ty,
        ),
        ImplLongId::ImplImpl(impl_impl_id) => {
            let implized = impl_impl_concrete_implized(db, impl_impl_id);
            assert(db.spec_impl_long(impl_id) == before.spec_impl_long(impl_id));
            let imp = match implized {
                Ok(imp) => imp,
                Err(e) => {
                    assert(is_implized_type_of(*db, impl_type_id, implized, Err(e)));
                    return Err(e);
                },
            };
            proof {
                assert(is_implized_impl(*db, impl_impl_id, false, Ok(imp)));
                assert(db.interned@.impl_parts(imp.0 as int, db.interned@.impls[imp.0 as int]));
            }
            if let ImplLongId::Concrete(concrete_impl) = db.impl_long(imp) {
                proof {
                    lemma_implized_type_ready_grown(before, *db, impl_impl_id, impl_type_id.ty, imp);
                }
                return concrete_type(db, imp, concrete_impl, impl_type_id.ty);
            }
            let ghost middle = *db;
            let res = db.intern_type(TypeLongId::ImplType(impl_type_id));
            proof {
                assert(db.spec_impl_long(impl_id) == before.spec_impl_long(impl_id));
                assert(db.spec_impl_long(imp) == middle.spec_impl_long(imp));
                lemma_implized_impl_kept(middle, *db, impl_impl_id, imp);
                assert(is_implized_impl(*db, impl_impl_id, false, Ok(imp)));
            }
            Ok(res)
        },
        ImplLongId::GeneratedImpl(generated) => {
            proof {
                assert(db.sizes().has_generated_parts(
                    db.interned@.generated_impls[generated.0 as int],
                ));
            }
            match db.lookup_intern_generated_impl(generated).impl_items.0.get(&impl_type_id.ty) {
                Some(ty) => Ok(*ty),
                None => Err(skip_diagnostic()),
            }
        },
        _ => {
            let res = db.intern_type(TypeLongId::ImplType(impl_type_id));
            assert(db.spec_impl_long(impl_id) == before.spec_impl_long(impl_id));
            Ok(res)
        },
    }
}

/// Interning a type changes nothing about impls.
proof fn lemma_implized_impl_kept(
    before: SemanticGroup,
    after: SemanticGroup,
    item: ImplImplId,
    imp: ImplId,
)
    requires
        before.wf(),
        after.grown_from(before),
        after.interned@.impls == before.interned@.impls,
        after.interned@.concrete_impls == before.interned@.concrete_impls,
        impl_impl_ready(before, item),
        is_implized_impl(before, item, false, Ok(imp)),
    ensures
        is_implized_impl(after, item, false, Ok(imp)),
{
    reveal(crate::db::SemanticFacts::valid);
    match before.spec_impl_long(item.impl_id) {
        ImplLongId::Concrete(c) => {
            let impl_def_id = before.spec_concrete_impl_long(c).impl_def_id;
            lemma_definition_grown(before, after, impl_def_id);
        },
        _ => {},
    }
}

/// The same where the type depends on itself.
pub fn impl_type_concrete_implized_cycle(
    db: &mut SemanticGroup,
    impl_type_id: ImplTypeId,
) -> (res: Maybe<TypeId>)
    requires
        old(db).wf(),
        type_ready(*old(db), impl_type_id),
    ensures
        final(db).wf(),
        final(db).grown_from(*old(db)),
        is_implized_type(*final(db), impl_type_id, res),
        final(db).sizes().has_maybe_type(res),
{
    impl_type_concrete_implized(db, impl_type_id)
}

// --- Laws ---

/// Whether an impl resolves a type by its name: the last item of that name in its body is a type,
/// and that is recorded to stand for `resolved`.
pub open spec fn resolves_type(
    db: SemanticGroup,
    impl_def_id: ImplDefId,
    name: SmolStrId,
    resolved: Maybe<TypeId>,
) -> bool {
    exists|ast: ItemImpl, i: int| #[trigger]
        is_written(db, impl_def_id, ast) && #[trigger] is_last_of_name(written_items(ast), i) && (
        written_items(ast)[i] matches ImplItem::Type(t, _) && t.name == name && {
            let id = ImplTypeDefId { impl_def_id, name, stable_ptr: t.stable_ptr };
            lookup(db.facts.type_items@, id) matches Some(f) && f.generics is Ok && (if
            db.facts.cycles.type_items@.contains(id) {
                f.alias_in_cycle
            } else {
                f.alias
            } matches Ok(alias) && alias.resolved_type == resolved)
        })
}

/// The type that an impl gives for a trait type is the one that its body resolves under that name.
pub proof fn law_impls_give_the_types_they_write(
    db: SemanticGroup,
    impl_def_id: ImplDefId,
    id: TraitTypeId,
    resolved: Maybe<TypeId>,
)
    requires
        db.spec_definition(impl_def_id) is Ok,
        db.spec_impl_def_trait(impl_def_id) is Ok,
        resolves_type(db, impl_def_id, id.name, resolved),
    ensures
        db.spec_implized_type(impl_def_id, id) == resolved,
{
    let (ast, i) = choose|ast: ItemImpl, i: int| #[trigger]
        is_written(db, impl_def_id, ast) && #[trigger] is_last_of_name(written_items(ast), i) && (
        written_items(ast)[i] matches ImplItem::Type(t, _) && t.name == id.name && {
            let id = ImplTypeDefId { impl_def_id, name: id.name, stable_ptr: t.stable_ptr };
            lookup(db.facts.type_items@, id) matches Some(f) && f.generics is Ok && (if
            db.facts.cycles.type_items@.contains(id) {
                f.alias_in_cycle
            } else {
                f.alias
            } matches Ok(alias) && alias.resolved_type == resolved)
        });
    let d = db.spec_definition(impl_def_id)->Ok_0;
    law_definitions_list_what_is_written(db, impl_def_id, ast, d);
    assert(is_last_of_id(impl_def_id, written_items(ast), i));
}

/// An impl gives no type for a trait type that no item of its body has the name of.
pub proof fn law_impls_give_no_types_they_do_not_write(
    db: SemanticGroup,
    impl_def_id: ImplDefId,
    id: TraitTypeId,
    ast: ItemImpl,
)
    requires
        is_written(db, impl_def_id, ast),
        !names_item(written_items(ast), id.name),
    ensures
        db.spec_implized_type(impl_def_id, id) is Err,
{
    if let Ok(d) = db.spec_definition(impl_def_id) {
        law_definitions_list_what_is_written(db, impl_def_id, ast, d);
        assert(!has_key(d.by_name, id.name));
    }
}

/// The type that a trait type stands for in a concrete impl is what the substitution of the impl
/// makes of the type that its definition resolves. Where nothing is recorded for the substitution
/// and the type, it is that type.
pub proof fn law_types_of_concrete_impls_are_substituted(
    db: SemanticGroup,
    id: ImplTypeId,
    c: ConcreteImplId,
    s: SubstitutionView,
    written: TypeId,
    res: Maybe<TypeId>,
)
    requires
        db.interned@.impls[id.impl_id.0 as int] == ImplLongId::Concrete(c),
        db.spec_definition(db.interned@.concrete_impls[c.0 as int].impl_def_id) is Ok,
        db.spec_impl_def_trait(db.interned@.concrete_impls[c.0 as int].impl_def_id) is Ok,
        resolves_type(
            db,
            db.interned@.concrete_impls[c.0 as int].impl_def_id,
            id.ty.name,
            Ok(written),
        ),
        db.spec_impl_substitution(id.impl_id, c) == Ok::<_, DiagnosticAdded>(s),
        is_implized_type(db, id, res),
    ensures
        res == made_of(db.facts.substituted_types@, (s, written), written),
{
    law_impls_give_the_types_they_write(
        db,
        db.interned@.concrete_impls[c.0 as int].impl_def_id,
        id.ty,
        Ok(written),
    );
}

/// Whether substituting a type parameter is recorded as what the substitution gives it.
pub open spec fn parameters_are_replaced(db: SemanticGroup) -> bool {
    forall|s: SubstitutionView, ty: TypeId|
        (db.interned@.types[ty.0 as int] matches TypeLongId::GenericParameter(p) && lookup(
            s.param_to_arg,
            p,
        ) matches Some(GenericArgumentId::Type(_))) ==> (#[trigger] made_of(
            db.facts.substituted_types@,
            (s, ty),
            ty,
        )) == Ok::<_, DiagnosticAdded>(
            lookup(
                s.param_to_arg,
                db.interned@.types[ty.0 as int]->GenericParameter_0,
            )->0->Type_0,
        )
}

/// Where a definition writes one of its own type parameters for a trait type, a concrete impl of it
/// gives the argument at the place of that parameter.
pub proof fn law_type_parameters_stand_for_arguments(
    db: SemanticGroup,
    id: ImplTypeId,
    c: ConcreteImplId,
    written: TypeId,
    i: int,
    res: Maybe<TypeId>,
)
    requires
        parameters_are_replaced(db),
        db.interned@.impls[id.impl_id.0 as int] == ImplLongId::Concrete(c),
        ({
            let long = db.interned@.concrete_impls[c.0 as int];
            let params = recorded_params(db, long.impl_def_id);
            &&& db.spec_definition(long.impl_def_id) is Ok
            &&& db.spec_impl_def_trait(long.impl_def_id) is Ok
            &&& resolves_type(db, long.impl_def_id, id.ty.name, Ok(written))
            &&& 0 <= i < params.len()
            &&& i < long.generic_args.len()
            &&& long.generic_args[i] is Type
            &&& db.interned@.types[written.0 as int] matches TypeLongId::GenericParameter(p) && p
                == params[i].spec_id()
            &&& forall|j: int, k: int|
                0 <= j < k < params.len() ==> (#[trigger] params[j]).spec_id() != (
                #[trigger] params[k]).spec_id()
        }),
        is_implized_type(db, id, res),
    ensures
        res == Ok::<_, DiagnosticAdded>(
            db.interned@.concrete_impls[c.0 as int].generic_args[i]->Type_0,
        ),
{
    let long = db.interned@.concrete_impls[c.0 as int];
    let params = recorded_params(db, long.impl_def_id);
    law_concrete_impls_give_parameters_their_arguments(db, id.impl_id, c);
    assert(exists|ast: ItemImpl| is_written(db, long.impl_def_id, ast));
    let s = db.spec_impl_substitution(id.impl_id, c)->Ok_0;
    law_types_of_concrete_impls_are_substituted(db, id, c, s, written, res);
    assert(lookup(s.param_to_arg, params[i].spec_id()) == Some(long.generic_args[i]));
}

/// The type that a trait type stands for in a generated impl is the one that the impl was made with;
/// in a parameter, a variable, or the impl of a trait itself, it stays the type of that impl.
pub proof fn law_types_of_other_impls(db: SemanticGroup, id: ImplTypeId, res: Maybe<TypeId>)
    requires
        is_implized_type(db, id, res),
    ensures
        match db.interned@.impls[id.impl_id.0 as int] {
            ImplLongId::GeneratedImpl(g) => lookup(
                db.interned@.generated_impls[g.0 as int].impl_items,
                id.ty,
            ) matches Some(ty) ==> res == Ok::<_, DiagnosticAdded>(ty),
            ImplLongId::GenericParameter(_) | ImplLongId::ImplVar(_) | ImplLongId::SelfImpl(_) => {
                &&& res matches Ok(ty) && ty.0 < db.interned@.types.len() && (
                db.interned@.types[ty.0 as int] matches TypeLongId::ImplType(i) && i == id)
            },
            ImplLongId::ImplImpl(item) => exists|implized: Maybe<ImplId>| #[trigger]
                is_implized_impl(db, item, false, implized) && match implized {
                    Ok(imp) => if db.interned@.impls[imp.0 as int] is Concrete {
                        is_implized_type(db, ImplTypeId { impl_id: imp, ty: id.ty }, res)
                    } else {
                        res matches Ok(ty) && ty.0 < db.interned@.types.len() && (
                        db.interned@.types[ty.0 as int] matches TypeLongId::ImplType(i) && i == id)
                    },
                    Err(_) => res is Err,
                },
            ImplLongId::Concrete(_) => true,
        },
{
    if let ImplLongId::ImplImpl(item) = db.interned@.impls[id.impl_id.0 as int] {
        let implized = choose|implized: Maybe<ImplId>| #[trigger]
            is_implized_impl(db, item, false, implized) && is_implized_type_of(
                db,
                id,
                implized,
                res,
            );
        assert(is_implized_impl(db, item, false, implized));
        if let Ok(imp) = implized {
            if db.interned@.impls[imp.0 as int] is Concrete {
                assert(is_implized_type(db, ImplTypeId { impl_id: imp, ty: id.ty }, res));
            }
        }
    }
}

} // verus!
