//! Substitution of generic parameters.

use vstd::prelude::*;

use crate::collections::{
    assoc_extend, law_later_entries_win, lemma_lookup_at, lookup, unique_keys, Id, Key,
    OrderedHashMap,
};
use crate::ids::{GenericParamId, ImplId};
use crate::model::{GenericArgumentId, GenericParam};

verus! {

/// What generic parameters, and the impl at hand, are replaced by.
pub struct GenericSubstitution {
    pub param_to_arg: OrderedHashMap<GenericParamId, GenericArgumentId>,
    pub self_impl: Option<ImplId>,
}

/// A substitution, with its entries as a sequence.
#[verifier::ext_equal]
pub struct SubstitutionView {
    pub param_to_arg: Seq<(GenericParamId, GenericArgumentId)>,
    pub self_impl: Option<ImplId>,
}

impl View for GenericSubstitution {
    type V = SubstitutionView;

    open spec fn view(&self) -> SubstitutionView {
        SubstitutionView { param_to_arg: self.param_to_arg@, self_impl: self.self_impl }
    }
}

/// The parameters paired with the arguments, in order.
pub open spec fn param_arg_pairs(
    params: Seq<GenericParam>,
    args: Seq<GenericArgumentId>,
) -> Seq<(GenericParamId, GenericArgumentId)> {
    Seq::new(
        if params.len() <= args.len() {
            params.len()
        } else {
            args.len()
        },
        |i: int| (params[i].spec_id(), args[i]),
    )
}

/// The substitution that gives each parameter its argument.
pub open spec fn substitution_of(
    params: Seq<GenericParam>,
    args: Seq<GenericArgumentId>,
) -> SubstitutionView {
    SubstitutionView {
        param_to_arg: assoc_extend(Seq::empty(), param_arg_pairs(params, args)),
        self_impl: None,
    }
}

/// The substitution that only knows the impl at hand.
pub open spec fn substitution_from_impl(self_impl: ImplId) -> SubstitutionView {
    SubstitutionView { param_to_arg: Seq::empty(), self_impl: Some(self_impl) }
}

/// One substitution with the entries of another added.
pub open spec fn substitution_concat(a: SubstitutionView, b: SubstitutionView) -> SubstitutionView {
    SubstitutionView {
        param_to_arg: assoc_extend(a.param_to_arg, b.param_to_arg),
        self_impl: match b.self_impl {
            Some(imp) => Some(imp),
            None => a.self_impl,
        },
    }
}

impl GenericSubstitution {
    /// Gives each parameter the argument at its place.
    pub fn new(
        generic_params: &Vec<GenericParam>,
        generic_args: &Vec<GenericArgumentId>,
    ) -> (res: Self)
        ensures
            res@ == substitution_of(generic_params@, generic_args@),
    {
        let mut param_to_arg: OrderedHashMap<GenericParamId, GenericArgumentId> =
            OrderedHashMap::new();
        let ghost pairs = param_arg_pairs(generic_params@, generic_args@);
        let mut i: usize = 0;
        assert(pairs.take(0) =~= Seq::empty());
        while i < generic_params.len() && i < generic_args.len()
            invariant
                pairs == param_arg_pairs(generic_params@, generic_args@),
                i <= pairs.len(),
                param_to_arg@ == assoc_extend(Seq::empty(), pairs.take(i as int)),
            decreases generic_params.len() - i,
        {
            assert(pairs.take(i + 1).drop_last() =~= pairs.take(i as int));
            param_to_arg.insert(generic_params[i].id(), generic_args[i]);
            i += 1;
        }
        assert(pairs.take(i as int) =~= pairs);
        GenericSubstitution { param_to_arg, self_impl: None }
    }

    /// Knows the impl at hand alone.
    pub fn from_impl(self_impl: ImplId) -> (res: Self)
        ensures
            res@ == substitution_from_impl(self_impl),
    {
        GenericSubstitution { param_to_arg: OrderedHashMap::new(), self_impl: Some(self_impl) }
    }

    /// Adds the entries of another substitution, which win over earlier ones.
    pub fn concat(self, other: GenericSubstitution) -> (res: Self)
        ensures
            res@ == substitution_concat(self@, other@),
    {
        let mut param_to_arg = self.param_to_arg;
        let ghost before = self.param_to_arg@;
        let mut i: usize = 0;
        assert(other.param_to_arg@.take(0) =~= Seq::empty());
        while i < other.param_to_arg.len()
            invariant
                i <= other.param_to_arg@.len(),
                param_to_arg@ == assoc_extend(before, other.param_to_arg@.take(i as int)),
            decreases other.param_to_arg@.len() - i,
        {
            assert(other.param_to_arg@.take(i + 1).drop_last() =~= other.param_to_arg@.take(
                i as int,
            ));
            let (param, arg) = other.param_to_arg.entry_at(i);
            param_to_arg.insert(*param, *arg);
            i += 1;
        }
        assert(other.param_to_arg@.take(other.param_to_arg@.len() as int)
            =~= other.param_to_arg@);
        let self_impl = match other.self_impl {
            Some(imp) => Some(imp),
            None => self.self_impl,
        };
        GenericSubstitution { param_to_arg, self_impl }
    }
}

impl Key for GenericSubstitution {
    fn same(&self, other: &Self) -> (res: bool) {
        let same_impl = match (self.self_impl, other.self_impl) {
            (Some(a), Some(b)) => a == b,
            (None, None) => true,
            _ => false,
        };
        same_impl && self.param_to_arg.same_entries(&other.param_to_arg)
    }

    fn dup(&self) -> (res: Self) {
        GenericSubstitution { param_to_arg: self.param_to_arg.copy(), self_impl: self.self_impl }
    }
}

/// A substitution gives each parameter the argument at its place, where no parameter comes twice.
pub proof fn law_parameters_get_their_arguments(
    params: Seq<GenericParam>,
    args: Seq<GenericArgumentId>,
    i: int,
)
    requires
        0 <= i < params.len(),
        i < args.len(),
        forall|j: int, k: int|
            0 <= j < k < params.len() ==> (#[trigger] params[j]).spec_id() != (
            #[trigger] params[k]).spec_id(),
    ensures
        lookup(substitution_of(params, args).param_to_arg, params[i].spec_id()) == Some(args[i]),
{
    let pairs = param_arg_pairs(params, args);
    assert forall|j: int, k: int|
        0 <= j < pairs.len() && 0 <= k < pairs.len() && (#[trigger] pairs[j]).0 == (
        #[trigger] pairs[k]).0 implies j == k by {
        assert(pairs[j].0 == params[j].spec_id());
        assert(pairs[k].0 == params[k].spec_id());
    }
    law_later_entries_win(Seq::empty(), pairs, params[i].spec_id());
    lemma_lookup_at(pairs, i);
}

/// Where two substitutions are put together, the arguments of the second win over those of the
/// first.
pub proof fn law_later_substitution_wins(
    a: SubstitutionView,
    b: SubstitutionView,
    param: GenericParamId,
)
    requires
        unique_keys(a.param_to_arg),
        unique_keys(b.param_to_arg),
    ensures
        lookup(substitution_concat(a, b).param_to_arg, param) == match lookup(
            b.param_to_arg,
            param,
        ) {
            Some(arg) => Some(arg),
            None => lookup(a.param_to_arg, param),
        },
{
    law_later_entries_win(a.param_to_arg, b.param_to_arg, param);
}

/// An object and the substitution that is applied to it.
pub struct Substituted<O: Id> {
    pub substitution: GenericSubstitution,
    pub object: O,
}

impl<O: Id> View for Substituted<O> {
    type V = (SubstitutionView, O);

    open spec fn view(&self) -> (SubstitutionView, O) {
        (self.substitution@, self.object)
    }
}

impl<O: Id> Key for Substituted<O> {
    fn same(&self, other: &Self) -> (res: bool) {
        self.object.equals(other.object) && self.substitution.same(&other.substitution)
    }

    fn dup(&self) -> (res: Self) {
        Substituted { substitution: self.substitution.dup(), object: self.object }
    }
}

/// The substitution of an impl knows that impl, and no arguments. One that is made of parameters and
/// arguments knows no impl, and of two that are put together the second is asked first.
pub proof fn law_substitutions_know_the_impl(
    imp: ImplId,
    params: Seq<GenericParam>,
    args: Seq<GenericArgumentId>,
    a: SubstitutionView,
    b: SubstitutionView,
)
    ensures
        substitution_from_impl(imp).self_impl == Some(imp),
        substitution_from_impl(imp).param_to_arg.len() == 0,
        substitution_of(params, args).self_impl is None,
        substitution_concat(a, b).self_impl == if b.self_impl is Some {
            b.self_impl
        } else {
            a.self_impl
        },
{
}

} // verus!
