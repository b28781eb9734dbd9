//! Impls as values: the traits that they implement, what they depend on, and their texts.

use vstd::prelude::*;
use vstd::string::StringExecFns;

use crate::collections::{has_key, lookup};
use crate::db::SemanticGroup;
use crate::declaration::{impl_def_concrete_trait, impl_def_generic_params, recorded_params};
use crate::diagnostics::{DiagnosticAdded, Maybe};
use crate::facts::ConcreteTraitImplId;
use crate::ids::{
    ConcreteImplId, ConcreteTraitId, GeneratedImplId, GenericParamId, ImplId, TraitId, TraitImplId,
};
use crate::model::{
    GenericArgumentId, GenericParam, ImplHead, ImplImplId, ImplLongId, ImplVarId,
};
use crate::queries::made_of;
use crate::substitution::{
    law_parameters_get_their_arguments, substitution_from_impl, substitution_of,
    GenericSubstitution, SubstitutionView,
};
use crate::text::{decimal, decimal_text};

verus! {

// --- The trait of an impl ---

/// The trait that an impl implements.
pub open spec fn impl_trait(db: SemanticGroup, imp: ImplId) -> Maybe<ConcreteTraitId>
    decreases imp.0,
{
    match db.spec_impl_long(imp) {
        ImplLongId::Concrete(c) => {
            let long = db.spec_concrete_impl_long(c);
            match (
                db.spec_impl_def_generic_params(long.impl_def_id),
                db.spec_impl_def_concrete_trait(long.impl_def_id),
            ) {
                (Ok(params), Ok(concrete_trait)) => db.spec_substitute_trait(
                    substitution_of(params, long.generic_args),
                    concrete_trait,
                ),
                _ => Err(DiagnosticAdded),
            }
        },
        ImplLongId::GenericParameter(param) => db.spec_param_trait(param),
        ImplLongId::ImplVar(var) => Ok(var.concrete_trait_id),
        ImplLongId::ImplImpl(id) => if id.impl_id.0 < imp.0 {
            trait_impl_trait(db, id, impl_trait(db, id.impl_id))
        } else {
            Err(DiagnosticAdded)
        },
        ImplLongId::SelfImpl(concrete_trait) => Ok(concrete_trait),
        ImplLongId::GeneratedImpl(id) => Ok(db.spec_generated_long(id).concrete_trait),
    }
}

/// The trait of an impl item of kind impl, given the trait of the impl it is in.
pub open spec fn trait_impl_trait(
    db: SemanticGroup,
    id: ImplImplId,
    outer: Maybe<ConcreteTraitId>,
) -> Maybe<ConcreteTraitId> {
    match outer {
        Ok(concrete_trait) => match db.spec_trait_impl_trait(
            ConcreteTraitImplId { concrete_trait, trait_impl_id: id.trait_impl_id },
        ) {
            Ok(t) => db.spec_substitute_trait(substitution_from_impl(id.impl_id), t),
            Err(e) => Err(e),
        },
        Err(e) => Err(e),
    }
}

/// The trait of an impl item of kind impl.
pub open spec fn impl_impl_trait(db: SemanticGroup, id: ImplImplId) -> Maybe<ConcreteTraitId> {
    trait_impl_trait(db, id, impl_trait(db, id.impl_id))
}

/// The trait that an impl implements.
pub fn impl_concrete_trait(db: &SemanticGroup, impl_id: ImplId) -> (res: Maybe<ConcreteTraitId>)
    requires
        db.wf(),
        db.has_impl(impl_id),
    ensures
        res == impl_trait(*db, impl_id),
        db.sizes().has_maybe_trait(res),
    decreases impl_id.0, 0int,
{
    proof {
        assert(db.interned@.impl_parts(impl_id.0 as int, db.interned@.impls[impl_id.0 as int]));
    }
    match db.impl_long(impl_id) {
        ImplLongId::Concrete(concrete_impl_id) => {
            let long_impl = db.concrete_impl_long(concrete_impl_id);
            let params = match impl_def_generic_params(db, long_impl.impl_def_id) {
                Ok(params) => params,
                Err(e) => return Err(e),
            };
            let substitution = GenericSubstitution::new(&params, &long_impl.generic_args);
            let concrete_trait = match impl_def_concrete_trait(db, long_impl.impl_def_id) {
                Ok(concrete_trait) => concrete_trait,
                Err(e) => return Err(e),
            };
            db.substitute_trait(&substitution, concrete_trait)
        },
        ImplLongId::GenericParameter(param) => db.param_trait(param),
        ImplLongId::ImplVar(var) => Ok(var.concrete_trait_id),
        ImplLongId::ImplImpl(impl_impl) => impl_impl_concrete_trait(db, impl_impl),
        ImplLongId::SelfImpl(concrete_trait_id) => Ok(concrete_trait_id),
        ImplLongId::GeneratedImpl(generated_impl) => {
            proof {
                assert(db.sizes().has_generated_parts(
                    db.interned@.generated_impls[generated_impl.0 as int],
                ));
            }
            Ok(generated_impl.concrete_trait(db))
        },
    }
}

/// The trait of an impl item of kind impl.
pub fn impl_impl_concrete_trait(db: &SemanticGroup, impl_impl_id: ImplImplId) -> (res: Maybe<
    ConcreteTraitId,
>)
    requires
        db.wf(),
        db.has_impl(impl_impl_id.impl_id),
    ensures
        res == impl_impl_trait(*db, impl_impl_id),
        db.sizes().has_maybe_trait(res),
    decreases impl_impl_id.impl_id.0, 2int,
{
    let concrete_trait_impl = match impl_impl_id.concrete_trait_impl_id(db) {
        Ok(id) => id,
        Err(e) => return Err(e),
    };
    match db.concrete_trait_impl_concrete_trait(concrete_trait_impl) {
        Ok(concrete_trait_id) => {
            let substitution = GenericSubstitution::from_impl(impl_impl_id.impl_id);
            db.substitute_trait(&substitution, concrete_trait_id)
        },
        Err(e) => Err(e),
    }
}

impl ImplImplId {
    /// Whether the trait impl belongs to the trait that the impl implements: asked of a concrete
    /// impl alone.
    pub open spec fn belongs(db: SemanticGroup, impl_id: ImplId, trait_impl_id: TraitImplId) -> bool {
        db.spec_impl_long(impl_id) matches ImplLongId::Concrete(c) ==> db.spec_impl_def_trait(
            db.spec_concrete_impl_long(c).impl_def_id,
        ) == Ok::<_, DiagnosticAdded>(trait_impl_id.trait_id)
    }

    /// Creates a new impl impl id. For an impl impl of a concrete impl, the trait impl has to
    /// belong to the same trait that the impl implements.
    pub fn new(impl_id: ImplId, trait_impl_id: TraitImplId, db: &SemanticGroup) -> (res: Self)
        requires
            db.wf(),
            db.has_impl(impl_id),
            ImplImplId::belongs(*db, impl_id, trait_impl_id),
        ensures
            res == (ImplImplId { impl_id, trait_impl_id }),
    {
        ImplImplId { impl_id, trait_impl_id }
    }

    /// The impl the item impl is in.
    pub fn impl_id(&self) -> (res: ImplId)
        ensures
            res == self.impl_id,
    {
        self.impl_id
    }

    /// The trait impl this impl impl implements.
    pub fn trait_impl_id(&self) -> (res: TraitImplId)
        ensures
            res == self.trait_impl_id,
    {
        self.trait_impl_id
    }

    /// The trait impl as one of the concrete trait that the impl implements.
    pub fn concrete_trait_impl_id(&self, db: &SemanticGroup) -> (res: Maybe<ConcreteTraitImplId>)
        requires
            db.wf(),
            db.has_impl(self.impl_id),
        ensures
            res == match impl_trait(*db, self.impl_id) {
                Ok(concrete_trait) => Ok(
                    ConcreteTraitImplId { concrete_trait, trait_impl_id: self.trait_impl_id },
                ),
                Err(e) => Err(e),
            },
        decreases self.impl_id.0, 1int,
    {
        match impl_concrete_trait(db, self.impl_id) {
            Ok(concrete_trait) => Ok(
                ConcreteTraitImplId { concrete_trait, trait_impl_id: self.trait_impl_id },
            ),
            Err(e) => Err(e),
        }
    }
}

impl GeneratedImplId {
    /// The trait that a generated impl implements.
    pub fn concrete_trait(self, db: &SemanticGroup) -> (res: ConcreteTraitId)
        requires
            db.has_generated(self),
        ensures
            res == db.spec_generated_long(self).concrete_trait,
    {
        db.lookup_intern_generated_impl(self).concrete_trait
    }

    /// The trait that a generated impl implements, without its arguments.
    pub fn trait_id(&self, db: &SemanticGroup) -> (res: TraitId)
        requires
            db.wf(),
            db.has_generated(*self),
        ensures
            res == db.spec_trait_long(db.spec_generated_long(*self).concrete_trait).trait_id,
    {
        proof {
            assert(db.sizes().has_generated_parts(db.interned@.generated_impls[self.0 as int]));
        }
        db.trait_long(self.concrete_trait(db)).trait_id
    }
}

impl ImplId {
    /// The trait that the impl implements.
    pub fn concrete_trait(&self, db: &SemanticGroup) -> (res: Maybe<ConcreteTraitId>)
        requires
            db.wf(),
            db.has_impl(*self),
        ensures
            res == impl_trait(*db, *self),
            db.sizes().has_maybe_trait(res),
    {
        impl_concrete_trait(db, *self)
    }
}

/// The trait of an impl stays as more values are interned.
pub proof fn lemma_impl_trait_grown(before: SemanticGroup, after: SemanticGroup, imp: ImplId)
    requires
        before.wf(),
        after.grown_from(before),
        before.has_impl(imp),
    ensures
        impl_trait(after, imp) == impl_trait(before, imp),
    decreases imp.0,
{
    let long = before.spec_impl_long(imp);
    assert(before.interned@.impl_parts(imp.0 as int, long));
    assert(after.spec_impl_long(imp) == long);
    match long {
        ImplLongId::Concrete(c) => {
            assert(after.spec_concrete_impl_long(c) == before.spec_concrete_impl_long(c));
        },
        ImplLongId::ImplImpl(id) => {
            lemma_impl_trait_grown(before, after, id.impl_id);
        },
        ImplLongId::GeneratedImpl(id) => {
            assert(after.spec_generated_long(id) == before.spec_generated_long(id));
        },
        _ => {},
    }
}

// --- What an impl depends on ---

/// Whether an argument depends on no generics, given that of the impls.
pub open spec fn arg_is_fully_concrete(db: SemanticGroup, arg: GenericArgumentId, bound: int) -> bool
    decreases bound, 0int,
{
    match arg {
        GenericArgumentId::Impl(imp) => imp.0 < bound && impl_is_fully_concrete(db, imp),
        GenericArgumentId::NegImpl => true,
        _ => db.facts.fully_concrete_args@.contains(arg),
    }
}

/// Whether an impl depends on no generics.
pub open spec fn impl_is_fully_concrete(db: SemanticGroup, imp: ImplId) -> bool
    decreases imp.0 as int, 1int,
{
    match db.spec_impl_long(imp) {
        ImplLongId::Concrete(c) => forall|i: int|
            0 <= i < db.spec_concrete_impl_long(c).generic_args.len() ==> arg_is_fully_concrete(
                db,
                #[trigger] db.spec_concrete_impl_long(c).generic_args[i],
                imp.0 as int,
            ),
        ImplLongId::GeneratedImpl(id) => generated_is_fully_concrete(db, id),
        _ => false,
    }
}

/// Whether a generated impl depends on no generics.
pub open spec fn generated_is_fully_concrete(db: SemanticGroup, id: GeneratedImplId) -> bool {
    let long = db.spec_generated_long(id);
    &&& db.facts.fully_concrete_traits@.contains(long.concrete_trait)
    &&& forall|i: int|
        0 <= i < long.impl_items.len() ==> db.facts.fully_concrete_args@.contains(
            GenericArgumentId::Type((#[trigger] long.impl_items[i]).1),
        )
}

/// Whether an argument depends on no variables, given that of the impls.
pub open spec fn arg_is_var_free(db: SemanticGroup, arg: GenericArgumentId, bound: int) -> bool
    decreases bound, 0int,
{
    match arg {
        GenericArgumentId::Impl(imp) => imp.0 < bound && impl_is_var_free(db, imp),
        GenericArgumentId::NegImpl => true,
        _ => db.facts.var_free_args@.contains(arg),
    }
}

/// Whether an impl depends on no impl or type variables.
pub open spec fn impl_is_var_free(db: SemanticGroup, imp: ImplId) -> bool
    decreases imp.0 as int, 1int,
{
    match db.spec_impl_long(imp) {
        ImplLongId::Concrete(c) => forall|i: int|
            0 <= i < db.spec_concrete_impl_long(c).generic_args.len() ==> arg_is_var_free(
                db,
                #[trigger] db.spec_concrete_impl_long(c).generic_args[i],
                imp.0 as int,
            ),
        ImplLongId::SelfImpl(t) => db.facts.var_free_traits@.contains(t),
        ImplLongId::GenericParameter(_) => true,
        ImplLongId::ImplVar(_) => false,
        ImplLongId::ImplImpl(id) => id.impl_id.0 < imp.0 && impl_is_var_free(db, id.impl_id),
        ImplLongId::GeneratedImpl(id) => generated_is_var_free(db, id),
    }
}

/// Whether a generated impl depends on no variables.
pub open spec fn generated_is_var_free(db: SemanticGroup, id: GeneratedImplId) -> bool {
    let long = db.spec_generated_long(id);
    &&& db.facts.var_free_traits@.contains(long.concrete_trait)
    &&& forall|i: int|
        0 <= i < long.impl_items.len() ==> db.facts.var_free_args@.contains(
            GenericArgumentId::Type((#[trigger] long.impl_items[i]).1),
        )
}

/// Whether no argument depends on generics.
pub open spec fn args_are_fully_concrete(
    db: SemanticGroup,
    args: Seq<GenericArgumentId>,
    bound: int,
) -> bool {
    forall|i: int|
        0 <= i < args.len() ==> arg_is_fully_concrete(db, #[trigger] args[i], bound)
}

/// Whether no argument depends on variables.
pub open spec fn args_are_var_free(
    db: SemanticGroup,
    args: Seq<GenericArgumentId>,
    bound: int,
) -> bool {
    forall|i: int| 0 <= i < args.len() ==> arg_is_var_free(db, #[trigger] args[i], bound)
}

/// Whether an impl, given by what it is, depends on no generics.
pub open spec fn long_is_fully_concrete(db: SemanticGroup, long: ImplLongId, bound: int) -> bool {
    match long {
        ImplLongId::Concrete(c) => args_are_fully_concrete(
            db,
            db.spec_concrete_impl_long(c).generic_args,
            bound,
        ),
        ImplLongId::GeneratedImpl(id) => generated_is_fully_concrete(db, id),
        _ => false,
    }
}

/// Whether an impl, given by what it is, depends on no variables.
pub open spec fn long_is_var_free(db: SemanticGroup, long: ImplLongId, bound: int) -> bool {
    match long {
        ImplLongId::Concrete(c) => args_are_var_free(
            db,
            db.spec_concrete_impl_long(c).generic_args,
            bound,
        ),
        ImplLongId::SelfImpl(t) => db.facts.var_free_traits@.contains(t),
        ImplLongId::GenericParameter(_) => true,
        ImplLongId::ImplVar(_) => false,
        ImplLongId::ImplImpl(id) => id.impl_id.0 < bound && impl_is_var_free(db, id.impl_id),
        ImplLongId::GeneratedImpl(id) => generated_is_var_free(db, id),
    }
}

fn check_args_fully_concrete(
    db: &SemanticGroup,
    args: &Vec<GenericArgumentId>,
    bound: u64,
) -> (res: bool)
    requires
        db.wf(),
        bound <= db.interned@.impls.len(),
        db.interned@.args_before(bound as int, args@),
    ensures
        res == args_are_fully_concrete(*db, args@, bound as int),
    decreases bound, 0int,
{
    let mut i: usize = 0;
    while i < args.len()
        invariant
            db.wf(),
            bound <= db.interned@.impls.len(),
            db.interned@.args_before(bound as int, args@),
            i <= args.len(),
            forall|j: int|
                0 <= j < i ==> arg_is_fully_concrete(*db, #[trigger] args@[j], bound as int),
        decreases args.len() - i,
    {
        assert(args@[i as int] == args@[i as int]);
        let fully_concrete = match args[i] {
            GenericArgumentId::Impl(imp) => check_impl_fully_concrete(db, imp),
            GenericArgumentId::NegImpl => true,
            arg => db.facts.fully_concrete_args.contains(&arg),
        };
        assert(fully_concrete == arg_is_fully_concrete(*db, args@[i as int], bound as int));
        if !fully_concrete {
            return false;
        }
        i += 1;
    }
    true
}

fn check_generated_fully_concrete(db: &SemanticGroup, id: GeneratedImplId) -> (res: bool)
    requires
        db.has_generated(id),
    ensures
        res == generated_is_fully_concrete(*db, id),
{
    let long = db.lookup_intern_generated_impl(id);
    if !db.facts.fully_concrete_traits.contains(&long.concrete_trait) {
        return false;
    }
    let count: usize = long.impl_items.0.len();
    let mut i: usize = 0;
    while i < count
        invariant
            i <= count == long@.impl_items.len(),
            long@ == db.spec_generated_long(id),
            forall|j: int|
                0 <= j < i ==> db.facts.fully_concrete_args@.contains(
                    GenericArgumentId::Type((#[trigger] long@.impl_items[j]).1),
                ),
        decreases count - i,
    {
        let (_, ty) = long.impl_items.0.entry_at(i);
        if !db.facts.fully_concrete_args.contains(&GenericArgumentId::Type(*ty)) {
            assert(long@.impl_items[i as int].1 == *ty);
            return false;
        }
        i += 1;
    }
    true
}

fn check_impl_fully_concrete(db: &SemanticGroup, imp: ImplId) -> (res: bool)
    requires
        db.wf(),
        db.has_impl(imp),
    ensures
        res == impl_is_fully_concrete(*db, imp),
    decreases imp.0, 1int,
{
    proof {
        assert(db.interned@.impl_parts(imp.0 as int, db.interned@.impls[imp.0 as int]));
    }
    match db.impl_long(imp) {
        ImplLongId::Concrete(c) => {
            check_args_fully_concrete(db, &db.concrete_impl_long(c).generic_args, imp.0)
        },
        ImplLongId::GeneratedImpl(id) => check_generated_fully_concrete(db, id),
        _ => false,
    }
}

fn check_args_var_free(db: &SemanticGroup, args: &Vec<GenericArgumentId>, bound: u64) -> (res: bool)
    requires
        db.wf(),
        bound <= db.interned@.impls.len(),
        db.interned@.args_before(bound as int, args@),
    ensures
        res == args_are_var_free(*db, args@, bound as int),
    decreases bound, 0int,
{
    let mut i: usize = 0;
    while i < args.len()
        invariant
            db.wf(),
            bound <= db.interned@.impls.len(),
            db.interned@.args_before(bound as int, args@),
            i <= args.len(),
            forall|j: int| 0 <= j < i ==> arg_is_var_free(*db, #[trigger] args@[j], bound as int),
        decreases args.len() - i,
    {
        assert(args@[i as int] == args@[i as int]);
        let var_free = match args[i] {
            GenericArgumentId::Impl(imp) => check_impl_var_free(db, imp),
            GenericArgumentId::NegImpl => true,
            arg => db.facts.var_free_args.contains(&arg),
        };
        assert(var_free == arg_is_var_free(*db, args@[i as int], bound as int));
        if !var_free {
            return false;
        }
        i += 1;
    }
    true
}

fn check_generated_var_free(db: &SemanticGroup, id: GeneratedImplId) -> (res: bool)
    requires
        db.has_generated(id),
    ensures
        res == generated_is_var_free(*db, id),
{
    let long = db.lookup_intern_generated_impl(id);
    if !db.facts.var_free_traits.contains(&long.concrete_trait) {
        return false;
    }
    let count: usize = long.impl_items.0.len();
    let mut i: usize = 0;
    while i < count
        invariant
            i <= count == long@.impl_items.len(),
            long@ == db.spec_generated_long(id),
            forall|j: int|
                0 <= j < i ==> db.facts.var_free_args@.contains(
                    GenericArgumentId::Type((#[trigger] long@.impl_items[j]).1),
                ),
        decreases count - i,
    {
        let (_, ty) = long.impl_items.0.entry_at(i);
        if !db.facts.var_free_args.contains(&GenericArgumentId::Type(*ty)) {
            assert(long@.impl_items[i as int].1 == *ty);
            return false;
        }
        i += 1;
    }
    true
}

fn check_impl_var_free(db: &SemanticGroup, imp: ImplId) -> (res: bool)
    requires
        db.wf(),
        db.has_impl(imp),
    ensures
        res == impl_is_var_free(*db, imp),
    decreases imp.0, 1int,
{
    proof {
        assert(db.interned@.impl_parts(imp.0 as int, db.interned@.impls[imp.0 as int]));
    }
    match db.impl_long(imp) {
        ImplLongId::Concrete(c) => {
            check_args_var_free(db, &db.concrete_impl_long(c).generic_args, imp.0)
        },
        ImplLongId::SelfImpl(t) => db.facts.var_free_traits.contains(&t),
        ImplLongId::GenericParameter(_) => true,
        ImplLongId::ImplVar(_) => false,
        ImplLongId::ImplImpl(id) => check_impl_var_free(db, id.impl_id),
        ImplLongId::GeneratedImpl(id) => check_generated_var_free(db, id),
    }
}

/// Whether an impl depends on no generics.
pub fn priv_impl_is_fully_concrete(db: &SemanticGroup, impl_id: ImplId) -> (res: bool)
    requires
        db.wf(),
        db.has_impl(impl_id),
    ensures
        res == impl_is_fully_concrete(*db, impl_id),
{
    check_impl_fully_concrete(db, impl_id)
}

/// Whether an impl depends on no impl or type variables.
pub fn priv_impl_is_var_free(db: &SemanticGroup, impl_id: ImplId) -> (res: bool)
    requires
        db.wf(),
        db.has_impl(impl_id),
    ensures
        res == impl_is_var_free(*db, impl_id),
{
    check_impl_var_free(db, impl_id)
}

impl SemanticGroup {
    /// The number of interned impls.
    pub open spec fn impl_count(self) -> int {
        self.interned@.impls.len() as int
    }

    /// Whether an impl, given by what it is, mentions interned values only.
    pub open spec fn has_impl_parts(self, long: ImplLongId) -> bool {
        self.interned@.impl_parts(self.impl_count(), long)
    }

    fn count_impls(&self) -> (res: u64)
        ensures
            res == self.impl_count(),
    {
        let count: usize = self.interned.impls.len();
        count as u64
    }
}

impl ConcreteImplId {
    /// Returns true if the `impl` does not depend on any generics.
    pub fn is_fully_concrete(&self, db: &SemanticGroup) -> (res: bool)
        requires
            db.wf(),
            db.has_concrete_impl(*self),
        ensures
            res == args_are_fully_concrete(
                *db,
                db.spec_concrete_impl_long(*self).generic_args,
                db.impl_count(),
            ),
    {
        let count: u64 = db.count_impls();
        proof {
            assert(db.sizes().has_args(db.interned@.concrete_impls[self.0 as int].generic_args));
        }
        check_args_fully_concrete(db, &db.concrete_impl_long(*self).generic_args, count)
    }

    /// Returns true if the `impl` does not depend on impl or type variables.
    pub fn is_var_free(&self, db: &SemanticGroup) -> (res: bool)
        requires
            db.wf(),
            db.has_concrete_impl(*self),
        ensures
            res == args_are_var_free(
                *db,
                db.spec_concrete_impl_long(*self).generic_args,
                db.impl_count(),
            ),
    {
        let count: u64 = db.count_impls();
        proof {
            assert(db.sizes().has_args(db.interned@.concrete_impls[self.0 as int].generic_args));
        }
        check_args_var_free(db, &db.concrete_impl_long(*self).generic_args, count)
    }
}

impl ImplLongId {
    /// Returns true if the `impl` does not depend on any generics.
    pub fn is_fully_concrete(&self, db: &SemanticGroup) -> (res: bool)
        requires
            db.wf(),
            db.has_impl_parts(*self),
        ensures
            res == long_is_fully_concrete(*db, *self, db.impl_count()),
    {
        match *self {
            ImplLongId::Concrete(c) => c.is_fully_concrete(db),
            ImplLongId::GeneratedImpl(id) => check_generated_fully_concrete(db, id),
            _ => false,
        }
    }

    /// Returns true if the `impl` does not depend on impl or type variables.
    pub fn is_var_free(&self, db: &SemanticGroup) -> (res: bool)
        requires
            db.wf(),
            db.has_impl_parts(*self),
        ensures
            res == long_is_var_free(*db, *self, db.impl_count()),
    {
        match *self {
            ImplLongId::Concrete(c) => c.is_var_free(db),
            ImplLongId::SelfImpl(t) => db.facts.var_free_traits.contains(&t),
            ImplLongId::GenericParameter(_) => true,
            ImplLongId::ImplVar(_) => false,
            ImplLongId::ImplImpl(id) => id.impl_id.is_var_free(db),
            ImplLongId::GeneratedImpl(id) => check_generated_var_free(db, id),
        }
    }

    /// Returns the [ImplHead] of an impl if available.
    pub fn head(&self, db: &SemanticGroup) -> (res: Option<ImplHead>)
        requires
            *self matches ImplLongId::Concrete(c) ==> db.has_concrete_impl(c),
            *self matches ImplLongId::SelfImpl(t) ==> db.has_trait(t),
            *self matches ImplLongId::GeneratedImpl(g) ==> db.wf() && db.has_generated(g),
        ensures
            res == long_head(*db, *self),
            res is None <==> (*self is GenericParameter || *self is ImplVar),
    {
        match *self {
            ImplLongId::Concrete(concrete) => Some(ImplHead::Concrete(concrete.impl_def_id(db))),
            ImplLongId::ImplImpl(impl_impl) => Some(ImplHead::ImplImpl(impl_impl.trait_impl_id)),
            ImplLongId::SelfImpl(concrete_trait) => Some(
                ImplHead::SelfImpl(db.trait_long(concrete_trait).trait_id),
            ),
            ImplLongId::GeneratedImpl(generated) => Some(
                ImplHead::GeneratedImpl(generated.trait_id(db)),
            ),
            ImplLongId::GenericParameter(_) | ImplLongId::ImplVar(_) => None,
        }
    }
}

/// The head of an impl: all but parameters and variables have one.
pub open spec fn long_head(db: SemanticGroup, long: ImplLongId) -> Option<ImplHead> {
    match long {
        ImplLongId::Concrete(c) => Some(
            ImplHead::Concrete(db.spec_concrete_impl_long(c).impl_def_id),
        ),
        ImplLongId::ImplImpl(id) => Some(ImplHead::ImplImpl(id.trait_impl_id)),
        ImplLongId::SelfImpl(t) => Some(ImplHead::SelfImpl(db.spec_trait_long(t).trait_id)),
        ImplLongId::GeneratedImpl(g) => Some(
            ImplHead::GeneratedImpl(
                db.spec_trait_long(db.spec_generated_long(g).concrete_trait).trait_id,
            ),
        ),
        ImplLongId::GenericParameter(_) => None,
        ImplLongId::ImplVar(_) => None,
    }
}

impl ImplId {
    /// Returns true if the `impl` does not depend on any generics.
    pub fn is_fully_concrete(&self, db: &SemanticGroup) -> (res: bool)
        requires
            db.wf(),
            db.has_impl(*self),
        ensures
            res == impl_is_fully_concrete(*db, *self),
    {
        priv_impl_is_fully_concrete(db, *self)
    }

    /// Returns true if the `impl` does not depend on impl or type variables.
    pub fn is_var_free(&self, db: &SemanticGroup) -> (res: bool)
        requires
            db.wf(),
            db.has_impl(*self),
        ensures
            res == impl_is_var_free(*db, *self),
    {
        priv_impl_is_var_free(db, *self)
    }

    /// Returns the [ImplHead] of an impl if available.
    pub fn head(&self, db: &SemanticGroup) -> (res: Option<ImplHead>)
        requires
            db.wf(),
            db.has_impl(*self),
        ensures
            res == long_head(*db, db.spec_impl_long(*self)),
            res is None <==> (db.spec_impl_long(*self) is GenericParameter
                || db.spec_impl_long(*self) is ImplVar),
    {
        proof {
            assert(db.interned@.impl_parts(self.0 as int, db.interned@.impls[self.0 as int]));
        }
        db.impl_long(*self).head(db)
    }
}

/// What depends on no generics depends on no variables, for impls as soon as it holds for the
/// types, constants and traits that they mention.
pub proof fn law_fully_concrete_impls_are_var_free(db: SemanticGroup, imp: ImplId)
    requires
        db.wf(),
        db.has_impl(imp),
        forall|arg: GenericArgumentId|
            #[trigger]
            db.facts.fully_concrete_args@.contains(arg) ==> db.facts.var_free_args@.contains(arg),
        forall|t: ConcreteTraitId|
            #[trigger]
            db.facts.fully_concrete_traits@.contains(t) ==> db.facts.var_free_traits@.contains(t),
    ensures
        impl_is_fully_concrete(db, imp) ==> impl_is_var_free(db, imp),
    decreases imp.0,
{
    assert(db.interned@.impl_parts(imp.0 as int, db.interned@.impls[imp.0 as int]));
    if impl_is_fully_concrete(db, imp) {
        match db.spec_impl_long(imp) {
            ImplLongId::Concrete(c) => {
                let args = db.spec_concrete_impl_long(c).generic_args;
                assert forall|i: int| 0 <= i < args.len() implies arg_is_var_free(
                    db,
                    #[trigger] args[i],
                    imp.0 as int,
                ) by {
                    assert(arg_is_fully_concrete(db, args[i], imp.0 as int));
                    match args[i] {
                        GenericArgumentId::Impl(j) => {
                            law_fully_concrete_impls_are_var_free(db, j);
                        },
                        _ => {},
                    }
                }
            },
            _ => {},
        }
    }
}

// --- Texts ---

impl SemanticGroup {
    /// The name of a trait.
    pub open spec fn spec_trait_name(self, id: TraitId) -> Seq<char> {
        match lookup(self.facts.traits@, id) {
            Some(f) => f.name@,
            None => seq![],
        }
    }

    fn trait_name(&self, id: TraitId) -> (res: String)
        ensures
            res@ == self.spec_trait_name(id),
    {
        match self.facts.traits.get(&id) {
            Some(f) => f.name.clone(),
            None => String::new(),
        }
    }

    /// A concrete impl as it is printed: its path and its arguments.
    pub open spec fn spec_concrete_impl_text(self, id: ConcreteImplId) -> Seq<char> {
        self.spec_impl_def_full_path(self.spec_concrete_impl_long(id).impl_def_id) + match lookup(
            self.facts.impl_args_texts@,
            id,
        ) {
            Some(text) => text@,
            None => seq![],
        }
    }

    /// A generic parameter as it is printed in full.
    pub open spec fn spec_param_debug_name(self, id: GenericParamId) -> Seq<char> {
        match lookup(self.facts.generic_params@, id) {
            Some(f) => f.debug_name@,
            None => seq![],
        }
    }

    fn param_debug_name(&self, id: GenericParamId) -> (res: String)
        ensures
            res@ == self.spec_param_debug_name(id),
    {
        match self.facts.generic_params.get(&id) {
            Some(f) => f.debug_name.clone(),
            None => String::new(),
        }
    }

    /// A generic parameter as it is formatted.
    pub open spec fn spec_param_format(self, id: GenericParamId) -> Seq<char> {
        match lookup(self.facts.generic_params@, id) {
            Some(f) => f.format@,
            None => seq![],
        }
    }

    fn param_format(&self, id: GenericParamId) -> (res: String)
        ensures
            res@ == self.spec_param_format(id),
    {
        match self.facts.generic_params.get(&id) {
            Some(f) => f.format.clone(),
            None => String::new(),
        }
    }

    /// An impl variable as it is formatted.
    pub open spec fn spec_impl_var_text(self, id: ImplVarId) -> Seq<char> {
        match lookup(self.facts.impl_var_texts@, id) {
            Some(text) => text@,
            None => seq![],
        }
    }

    fn impl_var_text(&self, id: ImplVarId) -> (res: String)
        ensures
            res@ == self.spec_impl_var_text(id),
    {
        match self.facts.impl_var_texts.get(&id) {
            Some(text) => text.clone(),
            None => String::new(),
        }
    }
}

/// A generated impl as it is printed.
pub open spec fn generated_text(db: SemanticGroup, id: GeneratedImplId) -> Seq<char> {
    "Generated "@ + db.spec_trait_text(db.spec_generated_long(id).concrete_trait)
}

/// An impl as it is printed in full.
pub open spec fn impl_debug_text(db: SemanticGroup, imp: ImplId) -> Seq<char>
    decreases imp.0,
{
    match db.spec_impl_long(imp) {
        ImplLongId::Concrete(c) => db.spec_concrete_impl_text(c),
        ImplLongId::GenericParameter(param) => db.spec_param_debug_name(param),
        ImplLongId::ImplVar(var) => "?"@ + decimal(var.id as nat),
        ImplLongId::ImplImpl(id) => if id.impl_id.0 < imp.0 {
            impl_debug_text(db, id.impl_id) + "::"@ + db.spec_text(id.trait_impl_id.name)
        } else {
            seq![]
        },
        ImplLongId::SelfImpl(t) => db.spec_trait_text(t),
        ImplLongId::GeneratedImpl(id) => generated_text(db, id),
    }
}

/// An impl item of kind impl as it is printed in full.
pub open spec fn impl_impl_debug_text(db: SemanticGroup, id: ImplImplId) -> Seq<char> {
    impl_debug_text(db, id.impl_id) + "::"@ + db.spec_text(id.trait_impl_id.name)
}

/// The name of an impl.
pub open spec fn impl_name_text(db: SemanticGroup, imp: ImplId) -> Seq<char>
    decreases imp.0,
{
    match db.spec_impl_long(imp) {
        ImplLongId::ImplImpl(id) => if id.impl_id.0 < imp.0 {
            impl_name_text(db, id.impl_id) + "::"@ + trait_or_blank(db, impl_impl_trait(db, id))
        } else {
            seq![]
        },
        long => simple_name_text(db, long),
    }
}

/// A trait as it is printed, or `_` where it is not resolved.
pub open spec fn trait_or_blank(db: SemanticGroup, t: Maybe<ConcreteTraitId>) -> Seq<char> {
    match t {
        Ok(id) => db.spec_trait_text(id),
        Err(_) => "_"@,
    }
}

/// The name of an impl that is not in another one.
pub open spec fn simple_name_text(db: SemanticGroup, long: ImplLongId) -> Seq<char> {
    match long {
        ImplLongId::Concrete(c) => db.spec_impl_def_name(db.spec_concrete_impl_long(c).impl_def_id),
        ImplLongId::GenericParameter(param) => match param.name {
            Some(name) => db.spec_text(name),
            None => "_"@,
        },
        ImplLongId::ImplVar(var) => "ImplVar("@ + db.spec_trait_text(var.concrete_trait_id) + ")"@,
        ImplLongId::SelfImpl(t) => db.spec_trait_name(db.spec_trait_long(t).trait_id),
        ImplLongId::GeneratedImpl(id) => generated_text(db, id),
        ImplLongId::ImplImpl(_) => seq![],
    }
}

/// The name of an impl, given by what it is.
pub open spec fn long_name_text(db: SemanticGroup, long: ImplLongId) -> Seq<char> {
    match long {
        ImplLongId::ImplImpl(id) => impl_name_text(db, id.impl_id) + "::"@ + trait_or_blank(
            db,
            impl_impl_trait(db, id),
        ),
        _ => simple_name_text(db, long),
    }
}

/// An impl as it is formatted, given by what it is.
pub open spec fn long_format_text(db: SemanticGroup, long: ImplLongId) -> Seq<char> {
    match long {
        ImplLongId::GenericParameter(param) => db.spec_param_format(param),
        ImplLongId::ImplVar(var) => db.spec_impl_var_text(var),
        _ => long_debug_text(db, long),
    }
}

/// An impl as it is printed in full, given by what it is.
pub open spec fn long_debug_text(db: SemanticGroup, long: ImplLongId) -> Seq<char> {
    match long {
        ImplLongId::Concrete(c) => db.spec_concrete_impl_text(c),
        ImplLongId::GenericParameter(param) => db.spec_param_debug_name(param),
        ImplLongId::ImplVar(var) => "?"@ + decimal(var.id as nat),
        ImplLongId::ImplImpl(id) => impl_impl_debug_text(db, id),
        ImplLongId::SelfImpl(t) => db.spec_trait_text(t),
        ImplLongId::GeneratedImpl(id) => generated_text(db, id),
    }
}

impl ConcreteImplId {
    /// The name of the impl definition.
    pub fn name(&self, db: &SemanticGroup) -> (res: String)
        requires
            db.has_concrete_impl(*self),
        ensures
            res@ == db.spec_impl_def_name(db.spec_concrete_impl_long(*self).impl_def_id),
    {
        db.impl_def_name(self.impl_def_id(db))
    }

    /// The path of the impl definition, and the arguments.
    pub fn full_path(&self, db: &SemanticGroup) -> (res: String)
        requires
            db.has_concrete_impl(*self),
        ensures
            res@ == db.spec_concrete_impl_text(*self),
    {
        let mut res = db.impl_def_full_path(self.impl_def_id(db));
        match db.facts.impl_args_texts.get(self) {
            Some(text) => res.append(text.as_str()),
            None => {
                assert(res@ =~= res@ + Seq::<char>::empty());
            },
        }
        res
    }
}

impl GeneratedImplId {
    /// The generated impl as it is printed.
    pub fn debug(&self, db: &SemanticGroup) -> (res: String)
        requires
            db.has_generated(*self),
        ensures
            res@ == generated_text(*db, *self),
    {
        let mut res = String::from_str("Generated ");
        res.append(db.trait_text(self.concrete_trait(db)).as_str());
        res
    }
}

impl ImplImplId {
    /// The impl and the name of the item.
    pub fn full_path(&self, db: &SemanticGroup) -> (res: String)
        requires
            db.wf(),
            db.has_impl(self.impl_id),
        ensures
            res@ == impl_impl_debug_text(*db, *self),
        decreases self.impl_id.0, 1int,
    {
        let mut res = self.impl_id.debug(db);
        res.append("::");
        res.append(db.text(self.trait_impl_id.name).as_str());
        res
    }
}

impl ImplId {
    /// The impl as it is printed in full.
    pub fn debug(&self, db: &SemanticGroup) -> (res: String)
        requires
            db.wf(),
            db.has_impl(*self),
        ensures
            res@ == impl_debug_text(*db, *self),
        decreases self.0, 0int,
    {
        proof {
            assert(db.interned@.impl_parts(self.0 as int, db.interned@.impls[self.0 as int]));
        }
        match db.impl_long(*self) {
            ImplLongId::Concrete(c) => c.full_path(db),
            ImplLongId::GenericParameter(param) => db.param_debug_name(param),
            ImplLongId::ImplVar(var) => {
                let mut res = String::from_str("?");
                res.append(decimal_text(var.id).as_str());
                res
            },
            ImplLongId::ImplImpl(id) => id.full_path(db),
            ImplLongId::SelfImpl(t) => db.trait_text(t),
            ImplLongId::GeneratedImpl(id) => id.debug(db),
        }
    }

    /// Returns the name of the impl.
    pub fn name(&self, db: &SemanticGroup) -> (res: String)
        requires
            db.wf(),
            db.has_impl(*self),
        ensures
            res@ == impl_name_text(*db, *self),
        decreases self.0, 1int,
    {
        proof {
            assert(db.interned@.impl_parts(self.0 as int, db.interned@.impls[self.0 as int]));
        }
        let long = db.impl_long(*self);
        match long {
            ImplLongId::ImplImpl(id) => impl_impl_name(db, id),
            _ => simple_impl_name(db, &long),
        }
    }

    /// The impl as it is formatted.
    pub fn format(&self, db: &SemanticGroup) -> (res: String)
        requires
            db.wf(),
            db.has_impl(*self),
        ensures
            res@ == long_format_text(*db, db.spec_impl_long(*self)),
    {
        proof {
            assert(db.interned@.impl_parts(self.0 as int, db.interned@.impls[self.0 as int]));
        }
        db.impl_long(*self).format(db)
    }
}

/// The name of an impl item of kind impl.
fn impl_impl_name(db: &SemanticGroup, id: ImplImplId) -> (res: String)
    requires
        db.wf(),
        db.has_impl(id.impl_id),
    ensures
        res@ == impl_name_text(*db, id.impl_id) + "::"@ + trait_or_blank(
            *db,
            impl_impl_trait(*db, id),
        ),
    decreases id.impl_id.0, 2int,
{
    let mut res = id.impl_id.name(db);
    res.append("::");
    match impl_impl_concrete_trait(db, id) {
        Ok(t) => res.append(db.trait_text(t).as_str()),
        Err(_) => res.append("_"),
    }
    res
}

/// The name of an impl that is not in another one.
fn simple_impl_name(db: &SemanticGroup, long: &ImplLongId) -> (res: String)
    requires
        db.wf(),
        db.has_impl_parts(*long),
    ensures
        res@ == simple_name_text(*db, *long),
{
    match *long {
        ImplLongId::Concrete(c) => c.name(db),
        ImplLongId::GenericParameter(param) => match param.name {
            Some(name) => db.text(name),
            None => String::from_str("_"),
        },
        ImplLongId::ImplVar(var) => {
            let mut res = String::from_str("ImplVar(");
            res.append(db.trait_text(var.concrete_trait_id).as_str());
            res.append(")");
            res
        },
        ImplLongId::SelfImpl(t) => db.trait_name(db.trait_long(t).trait_id),
        ImplLongId::GeneratedImpl(id) => id.debug(db),
        ImplLongId::ImplImpl(_) => String::new(),
    }
}

impl ImplLongId {
    /// The name of the impl.
    pub fn name(&self, db: &SemanticGroup) -> (res: String)
        requires
            db.wf(),
            db.has_impl_parts(*self),
        ensures
            res@ == long_name_text(*db, *self),
    {
        match *self {
            ImplLongId::ImplImpl(id) => impl_impl_name(db, id),
            _ => simple_impl_name(db, self),
        }
    }

    /// The impl as it is formatted.
    pub fn format(&self, db: &SemanticGroup) -> (res: String)
        requires
            db.wf(),
            db.has_impl_parts(*self),
        ensures
            res@ == long_format_text(*db, *self),
    {
        match *self {
            ImplLongId::Concrete(c) => c.full_path(db),
            ImplLongId::GenericParameter(param) => db.param_format(param),
            ImplLongId::ImplVar(var) => db.impl_var_text(var),
            ImplLongId::ImplImpl(id) => id.full_path(db),
            ImplLongId::SelfImpl(t) => db.trait_text(t),
            ImplLongId::GeneratedImpl(id) => id.debug(db),
        }
    }

    /// The impl as it is printed in full.
    pub fn debug(&self, db: &SemanticGroup) -> (res: String)
        requires
            db.wf(),
            db.has_impl_parts(*self),
        ensures
            res@ == long_debug_text(*db, *self),
    {
        match *self {
            ImplLongId::Concrete(c) => c.full_path(db),
            ImplLongId::GenericParameter(param) => db.param_debug_name(param),
            ImplLongId::ImplVar(var) => {
                let mut res = String::from_str("?");
                res.append(decimal_text(var.id).as_str());
                res
            },
            ImplLongId::ImplImpl(id) => id.full_path(db),
            ImplLongId::SelfImpl(t) => db.trait_text(t),
            ImplLongId::GeneratedImpl(id) => id.debug(db),
        }
    }
}

// --- Laws ---

/// The trait of an impl by what the impl is. A parameter, a variable, a generated impl and the impl
/// of a trait itself have the trait that they are recorded with.
pub proof fn law_traits_of_impls_without_arguments(db: SemanticGroup, imp: ImplId)
    ensures
        match db.interned@.impls[imp.0 as int] {
            ImplLongId::GenericParameter(param) => impl_trait(db, imp) == match lookup(
                db.facts.generic_params@,
                param,
            ) {
                Some(f) => match f.semantic {
                    Ok(GenericParam::Impl(p)) => p.concrete_trait,
                    _ => Err(DiagnosticAdded),
                },
                None => Err(DiagnosticAdded),
            },
            ImplLongId::ImplVar(var) => impl_trait(db, imp) == Ok::<_, DiagnosticAdded>(
                var.concrete_trait_id,
            ),
            ImplLongId::SelfImpl(t) => impl_trait(db, imp) == Ok::<_, DiagnosticAdded>(t),
            ImplLongId::GeneratedImpl(g) => impl_trait(db, imp) == Ok::<_, DiagnosticAdded>(
                db.interned@.generated_impls[g.0 as int].concrete_trait,
            ),
            _ => true,
        },
{
}

/// A concrete impl has the trait of its definition, with each parameter of the definition replaced
/// by the argument at its place.
pub proof fn law_concrete_impls_have_the_substituted_trait(
    db: SemanticGroup,
    imp: ImplId,
    c: ConcreteImplId,
    t: ConcreteTraitId,
)
    requires
        db.interned@.impls[imp.0 as int] == ImplLongId::Concrete(c),
        db.spec_impl_def_concrete_trait(db.interned@.concrete_impls[c.0 as int].impl_def_id)
            == Ok::<_, DiagnosticAdded>(t),
    ensures
        exists|s: SubstitutionView|
            {
                let long = db.interned@.concrete_impls[c.0 as int];
                let params = recorded_params(db, long.impl_def_id);
                &&& s.self_impl is None
                &&& impl_trait(db, imp) == #[trigger] made_of(
                    db.facts.substituted_traits@,
                    (s, t),
                    t,
                )
                &&& (forall|j: int, k: int|
                    0 <= j < k < params.len() ==> (#[trigger] params[j]).spec_id() != (
                    #[trigger] params[k]).spec_id()) ==> forall|i: int|
                    0 <= i < params.len() && i < long.generic_args.len() ==> lookup(
                        s.param_to_arg,
                        (#[trigger] params[i]).spec_id(),
                    ) == Some(long.generic_args[i])
            },
{
    let long = db.interned@.concrete_impls[c.0 as int];
    let raw = recorded_params(db, long.impl_def_id);
    let params = db.spec_impl_def_generic_params(long.impl_def_id)->Ok_0;
    let s = substitution_of(params, long.generic_args);
    assert(impl_trait(db, imp) == made_of(db.facts.substituted_traits@, (s, t), t));
    assert forall|i: int| 0 <= i < raw.len() implies (#[trigger] params[i]).spec_id()
        == raw[i].spec_id() by {}
    if forall|j: int, k: int|
        0 <= j < k < raw.len() ==> (#[trigger] raw[j]).spec_id() != (#[trigger] raw[k]).spec_id() {
        assert forall|j: int, k: int| 0 <= j < k < params.len() implies (
        #[trigger] params[j]).spec_id() != (#[trigger] params[k]).spec_id() by {
            assert(raw[j].spec_id() != raw[k].spec_id());
        }
        assert forall|i: int| 0 <= i < raw.len() && i < long.generic_args.len() implies lookup(
            s.param_to_arg,
            (#[trigger] raw[i]).spec_id(),
        ) == Some(long.generic_args[i]) by {
            assert(params[i].spec_id() == raw[i].spec_id());
            law_parameters_get_their_arguments(params, long.generic_args, i);
        }
    }
}

/// An impl item has the trait that the trait of its impl records for it, with the impl known as the
/// impl itself.
pub proof fn law_impl_items_have_the_trait_of_their_impl(
    db: SemanticGroup,
    imp: ImplId,
    id: ImplImplId,
    outer: ConcreteTraitId,
)
    requires
        db.interned@.impls[imp.0 as int] == ImplLongId::ImplImpl(id),
        id.impl_id.0 < imp.0,
        impl_trait(db, id.impl_id) == Ok::<_, DiagnosticAdded>(outer),
    ensures
        impl_trait(db, imp) == impl_impl_trait(db, id),
        impl_trait(db, imp) == match lookup(
            db.facts.trait_impl_traits@,
            ConcreteTraitImplId { concrete_trait: outer, trait_impl_id: id.trait_impl_id },
        ) {
            Some(Ok(t)) => made_of(
                db.facts.substituted_traits@,
                (SubstitutionView { param_to_arg: seq![], self_impl: Some(id.impl_id) }, t),
                t,
            ),
            _ => Err(DiagnosticAdded),
        },
{
}

/// Whether an argument is recorded to depend on no generics, or is an impl that does not.
pub open spec fn mentions_no_generics(db: SemanticGroup, arg: GenericArgumentId) -> bool {
    match arg {
        GenericArgumentId::Impl(imp) => impl_is_fully_concrete(db, imp),
        GenericArgumentId::NegImpl => true,
        GenericArgumentId::Type(_) | GenericArgumentId::Value(_) => db.facts.fully_concrete_args@.contains(arg),
    }
}

/// Whether an argument is recorded to depend on no variables, or is an impl that does not.
pub open spec fn mentions_no_variables(db: SemanticGroup, arg: GenericArgumentId) -> bool {
    match arg {
        GenericArgumentId::Impl(imp) => impl_is_var_free(db, imp),
        GenericArgumentId::NegImpl => true,
        GenericArgumentId::Type(_) | GenericArgumentId::Value(_) => db.facts.var_free_args@.contains(arg),
    }
}

/// An impl depends on no generics exactly if it is concrete and none of its arguments does, or is
/// generated and neither its trait nor the types of its items do.
pub proof fn law_fully_concrete_impls(db: SemanticGroup, imp: ImplId)
    requires
        db.wf(),
        db.has_impl(imp),
    ensures
        impl_is_fully_concrete(db, imp) <==> match db.interned@.impls[imp.0 as int] {
            ImplLongId::Concrete(c) => forall|i: int|
                0 <= i < db.interned@.concrete_impls[c.0 as int].generic_args.len()
                    ==> mentions_no_generics(
                    db,
                    #[trigger] db.interned@.concrete_impls[c.0 as int].generic_args[i],
                ),
            ImplLongId::GeneratedImpl(g) => {
                let long = db.interned@.generated_impls[g.0 as int];
                &&& db.facts.fully_concrete_traits@.contains(long.concrete_trait)
                &&& forall|i: int|
                    0 <= i < long.impl_items.len() ==> mentions_no_generics(
                        db,
                        GenericArgumentId::Type((#[trigger] long.impl_items[i]).1),
                    )
            },
            ImplLongId::GenericParameter(_) | ImplLongId::ImplVar(_) | ImplLongId::ImplImpl(_)
            | ImplLongId::SelfImpl(_) => false,
        },
        impl_is_fully_concrete(db, imp) == long_is_fully_concrete(
            db,
            db.interned@.impls[imp.0 as int],
            db.impl_count(),
        ),
{
    assert(db.interned@.impl_parts(imp.0 as int, db.interned@.impls[imp.0 as int]));
    if let ImplLongId::Concrete(c) = db.interned@.impls[imp.0 as int] {
        let args = db.interned@.concrete_impls[c.0 as int].generic_args;
        assert forall|i: int| 0 <= i < args.len() implies arg_is_fully_concrete(
            db,
            #[trigger] args[i],
            imp.0 as int,
        ) == mentions_no_generics(db, args[i]) && arg_is_fully_concrete(
            db,
            args[i],
            db.impl_count(),
        ) == mentions_no_generics(db, args[i]) by {}
    }
}

/// An impl depends on no variables exactly if nothing that it mentions does; a parameter mentions
/// nothing, and a variable is one.
pub proof fn law_var_free_impls(db: SemanticGroup, imp: ImplId)
    requires
        db.wf(),
        db.has_impl(imp),
    ensures
        impl_is_var_free(db, imp) <==> match db.interned@.impls[imp.0 as int] {
            ImplLongId::Concrete(c) => forall|i: int|
                0 <= i < db.interned@.concrete_impls[c.0 as int].generic_args.len()
                    ==> mentions_no_variables(
                    db,
                    #[trigger] db.interned@.concrete_impls[c.0 as int].generic_args[i],
                ),
            ImplLongId::GeneratedImpl(g) => {
                let long = db.interned@.generated_impls[g.0 as int];
                &&& db.facts.var_free_traits@.contains(long.concrete_trait)
                &&& forall|i: int|
                    0 <= i < long.impl_items.len() ==> mentions_no_variables(
                        db,
                        GenericArgumentId::Type((#[trigger] long.impl_items[i]).1),
                    )
            },
            ImplLongId::GenericParameter(_) => true,
            ImplLongId::ImplVar(_) => false,
            ImplLongId::ImplImpl(id) => impl_is_var_free(db, id.impl_id),
            ImplLongId::SelfImpl(t) => db.facts.var_free_traits@.contains(t),
        },
        impl_is_var_free(db, imp) == long_is_var_free(
            db,
            db.interned@.impls[imp.0 as int],
            db.impl_count(),
        ),
{
    assert(db.interned@.impl_parts(imp.0 as int, db.interned@.impls[imp.0 as int]));
    if let ImplLongId::Concrete(c) = db.interned@.impls[imp.0 as int] {
        let args = db.interned@.concrete_impls[c.0 as int].generic_args;
        assert forall|i: int| 0 <= i < args.len() implies arg_is_var_free(
            db,
            #[trigger] args[i],
            imp.0 as int,
        ) == mentions_no_variables(db, args[i]) && arg_is_var_free(db, args[i], db.impl_count())
            == mentions_no_variables(db, args[i]) by {}
    }
}

/// Two impls have the same head exactly if both have one, are of one kind, and are of the same
/// definition, trait impl or trait.
pub proof fn law_equal_heads(db: SemanticGroup, a: ImplLongId, b: ImplLongId)
    ensures
        (long_head(db, a) is Some && long_head(db, a) == long_head(db, b)) <==> match (a, b) {
            (ImplLongId::Concrete(c), ImplLongId::Concrete(e)) => db.interned@.concrete_impls[c.0 as int].impl_def_id
                == db.interned@.concrete_impls[e.0 as int].impl_def_id,
            (ImplLongId::ImplImpl(c), ImplLongId::ImplImpl(e)) => c.trait_impl_id
                == e.trait_impl_id,
            (ImplLongId::SelfImpl(c), ImplLongId::SelfImpl(e)) => db.interned@.concrete_traits[c.0 as int].trait_id
                == db.interned@.concrete_traits[e.0 as int].trait_id,
            (
                ImplLongId::GeneratedImpl(c),
                ImplLongId::GeneratedImpl(e),
            ) => db.interned@.concrete_traits[db.interned@.generated_impls[c.0 as int].concrete_trait.0 as int].trait_id
                == db.interned@.concrete_traits[db.interned@.generated_impls[e.0 as int].concrete_trait.0 as int].trait_id,
            _ => false,
        },
        long_head(db, a) is None <==> (a is GenericParameter || a is ImplVar),
        long_head(db, a) matches Some(head) ==> match (a, head) {
            (ImplLongId::Concrete(c), ImplHead::Concrete(d)) => d
                == db.interned@.concrete_impls[c.0 as int].impl_def_id,
            (ImplLongId::ImplImpl(c), ImplHead::ImplImpl(i)) => i == c.trait_impl_id,
            (ImplLongId::SelfImpl(c), ImplHead::SelfImpl(t)) => t
                == db.interned@.concrete_traits[c.0 as int].trait_id,
            (ImplLongId::GeneratedImpl(c), ImplHead::GeneratedImpl(t)) => t
                == db.interned@.concrete_traits[db.interned@.generated_impls[c.0 as int].concrete_trait.0 as int].trait_id,
            _ => false,
        },
{
}

/// A recorded text, or none.
pub open spec fn text_of<K>(texts: Seq<(K, String)>, k: K) -> Seq<char> {
    if has_key(texts, k) {
        lookup(texts, k)->0@
    } else {
        seq![]
    }
}

/// An impl is printed by what it is: a concrete one by its path and arguments, an item of an impl
/// behind that impl, a variable by its number, a generated one by its trait. It is formatted alike,
/// but for parameters and variables.
pub proof fn law_impls_are_printed_by_what_they_are(db: SemanticGroup, imp: ImplId)
    requires
        db.wf(),
        db.has_impl(imp),
    ensures
        ({
            let long = db.interned@.impls[imp.0 as int];
            let debug = impl_debug_text(db, imp);
            &&& match long {
                ImplLongId::Concrete(c) => lookup(
                    db.facts.impl_defs@,
                    db.interned@.concrete_impls[c.0 as int].impl_def_id,
                ) matches Some(f) ==> debug == f.full_path@ + text_of(
                    db.facts.impl_args_texts@,
                    c,
                ),
                ImplLongId::GenericParameter(p) => lookup(
                    db.facts.generic_params@,
                    p,
                ) matches Some(f) ==> debug == f.debug_name@,
                ImplLongId::ImplVar(v) => debug == seq!['?'] + decimal(v.id as nat),
                ImplLongId::ImplImpl(i) => debug == impl_debug_text(db, i.impl_id) + seq![':', ':']
                    + text_of(db.facts.names@, i.trait_impl_id.name),
                ImplLongId::SelfImpl(t) => debug == text_of(db.facts.trait_texts@, t),
                ImplLongId::GeneratedImpl(g) => debug == seq![
                    'G',
                    'e',
                    'n',
                    'e',
                    'r',
                    'a',
                    't',
                    'e',
                    'd',
                    ' ',
                ] + text_of(
                    db.facts.trait_texts@,
                    db.interned@.generated_impls[g.0 as int].concrete_trait,
                ),
            }
            &&& long_debug_text(db, long) == debug
            &&& long_format_text(db, long) == match long {
                ImplLongId::GenericParameter(p) => match lookup(db.facts.generic_params@, p) {
                    Some(f) => f.format@,
                    None => seq![],
                },
                ImplLongId::ImplVar(v) => text_of(db.facts.impl_var_texts@, v),
                _ => debug,
            }
        }),
{
    reveal_strlit("?");
    reveal_strlit("::");
    reveal_strlit("Generated ");
    assert("?"@ =~= seq!['?']);
    assert("::"@ =~= seq![':', ':']);
    assert("Generated "@ =~= seq!['G', 'e', 'n', 'e', 'r', 'a', 't', 'e', 'd', ' ']);
    assert(db.interned@.impl_parts(imp.0 as int, db.interned@.impls[imp.0 as int]));
}

/// An impl is named by what it is: a concrete one as its definition, a parameter by its name, or
/// `_` where it has none, the impl of a trait itself as the trait, and an item of an impl behind that
/// impl, by the trait that it is of, or `_` where that is not known.
pub proof fn law_impls_are_named_by_what_they_are(db: SemanticGroup, imp: ImplId)
    requires
        db.wf(),
        db.has_impl(imp),
    ensures
        ({
            let long = db.interned@.impls[imp.0 as int];
            let name = impl_name_text(db, imp);
            &&& match long {
                ImplLongId::Concrete(c) => lookup(
                    db.facts.impl_defs@,
                    db.interned@.concrete_impls[c.0 as int].impl_def_id,
                ) matches Some(f) ==> name == f.name@,
                ImplLongId::GenericParameter(p) => name == match p.name {
                    Some(n) => text_of(db.facts.names@, n),
                    None => seq!['_'],
                },
                ImplLongId::ImplVar(v) => name == seq!['I', 'm', 'p', 'l', 'V', 'a', 'r', '(']
                    + text_of(db.facts.trait_texts@, v.concrete_trait_id) + seq![')'],
                ImplLongId::ImplImpl(i) => name == impl_name_text(db, i.impl_id) + seq![':', ':']
                    + match impl_trait(db, imp) {
                    Ok(t) => text_of(db.facts.trait_texts@, t),
                    Err(_) => seq!['_'],
                },
                ImplLongId::SelfImpl(t) => lookup(
                    db.facts.traits@,
                    db.interned@.concrete_traits[t.0 as int].trait_id,
                ) matches Some(f) ==> name == f.name@,
                ImplLongId::GeneratedImpl(_) => name == impl_debug_text(db, imp),
            }
            &&& long_name_text(db, long) == name
        }),
{
    reveal_strlit("_");
    reveal_strlit("::");
    reveal_strlit("ImplVar(");
    reveal_strlit(")");
    assert("_"@ =~= seq!['_']);
    assert("::"@ =~= seq![':', ':']);
    assert("ImplVar("@ =~= seq!['I', 'm', 'p', 'l', 'V', 'a', 'r', '(']);
    assert(")"@ =~= seq![')']);
    assert(db.interned@.impl_parts(imp.0 as int, db.interned@.impls[imp.0 as int]));
}

} // verus!
