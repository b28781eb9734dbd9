//! The impls that inference finds for a value that a function is called on.

use vstd::prelude::*;

use crate::collections::{copy_ids, lookup, same_ids, Id, Key, OrderedHashMap};
use crate::db::SemanticGroup;
use crate::diagnostics::{
    outside_view, skip_diagnostic, DiagnosticAdded, InferenceError, Maybe, OutsideDiagnostic,
    SemanticDiagnostics,
};
use crate::facts::{ConcreteTraitGenericFunctionId, Sizes};
use crate::ids::{
    ConcreteTraitId, FunctionId, ImplId, SmolStrId, SyntaxStablePtrId, TraitFunctionId, TraitId,
    TypeId,
};
use crate::model::{
    FunctionLongId, FunctionView, GenericArgumentId, GenericFunctionId, ImplGenericFunctionId,
};

verus! {

// --- The context of a computation ---

/// The question which trait a function belongs to when it is called on a value of a type.
#[derive(Clone, Copy, PartialEq, Eq, Structural, Debug)]
pub struct SelfQuestion {
    pub trait_function_id: TraitFunctionId,
    pub self_ty: TypeId,
    pub stable_ptr: SyntaxStablePtrId,
}

impl View for SelfQuestion {
    type V = SelfQuestion;

    open spec fn view(&self) -> SelfQuestion {
        *self
    }
}

impl Key for SelfQuestion {
    fn same(&self, other: &Self) -> (res: bool) {
        *self == *other
    }

    fn dup(&self) -> (res: Self) {
        *self
    }
}

/// The impls that inference finds for a trait.
#[derive(Clone, Copy, PartialEq, Eq, Structural, Debug)]
pub enum SolutionSet {
    Empty,
    Unique,
    Ambiguous,
}

/// The trait that a function is called through.
#[derive(Clone, Copy, PartialEq, Eq, Structural, Debug)]
pub struct TraitBySelf {
    pub concrete_trait_id: ConcreteTraitId,
    /// How many snapshots have to be added to the value.
    pub n_snapshots: usize,
    /// The impl that inference gives to the function.
    pub impl_id: ImplId,
}

/// What inference answers to a [SelfQuestion].
pub struct SelfAnswer {
    pub by_self: Option<TraitBySelf>,
    /// The errors on the way to the trait.
    pub errors: Vec<(TraitFunctionId, InferenceError)>,
    /// The error of solving, where there is one to report.
    pub solve_error: Option<InferenceError>,
    /// The impls of the trait, or an error, where there is one to report.
    pub solutions: Result<SolutionSet, Option<InferenceError>>,
}

/// A generic argument as it is written.
#[derive(Clone, Copy, PartialEq, Eq, Structural, Debug)]
pub struct GenericArg(pub SyntaxStablePtrId);

impl View for GenericArg {
    type V = GenericArg;

    open spec fn view(&self) -> GenericArg {
        *self
    }
}

impl Key for GenericArg {
    fn same(&self, other: &Self) -> (res: bool) {
        *self == *other
    }

    fn dup(&self) -> (res: Self) {
        *self
    }
}

impl Id for GenericArg {
    fn equals(self, other: Self) -> (res: bool) {
        self == other
    }
}

/// The question what the generic arguments of a function of an impl are.
#[verifier::ext_equal]
pub struct GenericArgsQuestion<A = Vec<GenericArg>> {
    pub impl_id: ImplId,
    pub function: ConcreteTraitGenericFunctionId,
    pub generic_args: A,
    pub stable_ptr: SyntaxStablePtrId,
}

impl View for GenericArgsQuestion {
    type V = GenericArgsQuestion<Seq<GenericArg>>;

    open spec fn view(&self) -> GenericArgsQuestion<Seq<GenericArg>> {
        GenericArgsQuestion {
            impl_id: self.impl_id,
            function: self.function,
            generic_args: self.generic_args@,
            stable_ptr: self.stable_ptr,
        }
    }
}

impl Key for GenericArgsQuestion {
    fn same(&self, other: &Self) -> (res: bool) {
        let res = self.impl_id == other.impl_id && self.function == other.function
            && self.stable_ptr == other.stable_ptr && same_ids(
            &self.generic_args,
            &other.generic_args,
        );
        assert(res == (self@ =~= other@));
        res
    }

    fn dup(&self) -> (res: Self) {
        GenericArgsQuestion {
            impl_id: self.impl_id,
            function: self.function,
            generic_args: copy_ids(&self.generic_args),
            stable_ptr: self.stable_ptr,
        }
    }
}

/// What the generic arguments of a function are.
pub struct GenericArgsAnswer {
    pub generic_args: Maybe<Vec<GenericArgumentId>>,
    pub diagnostics: Vec<OutsideDiagnostic>,
}

/// The context of a computation: what inference answers in it, and its diagnostics.
pub struct ComputationContext {
    pub self_answers: OrderedHashMap<SelfQuestion, SelfAnswer>,
    pub generic_args_answers: OrderedHashMap<GenericArgsQuestion, GenericArgsAnswer>,
    pub diagnostics: SemanticDiagnostics,
}

impl ComputationContext {
    /// Whether what the answers speak of is interned.
    pub open spec fn valid(self, n: Sizes) -> bool {
        &&& forall|q: SelfQuestion|
            (#[trigger] lookup(self.self_answers@, q)) matches Some(a) ==> (
            a.by_self matches Some(b) ==> n.has_impl(b.impl_id))
        &&& forall|q: GenericArgsQuestion<Seq<GenericArg>>|
            (#[trigger] lookup(self.generic_args_answers@, q)) matches Some(a) ==> (
            a.generic_args matches Ok(args) ==> n.has_args(args@))
    }

    /// The trait that a function is called through.
    pub open spec fn spec_by_self(self, q: SelfQuestion) -> Option<TraitBySelf> {
        match lookup(self.self_answers@, q) {
            Some(a) => a.by_self,
            None => None,
        }
    }
}

// --- Whether an impl exists ---

/// The list of one error, where there is one.
pub open spec fn error_list(
    trait_function_id: TraitFunctionId,
    error: Option<InferenceError>,
) -> Seq<(TraitFunctionId, InferenceError)> {
    match error {
        Some(e) => seq![(trait_function_id, e)],
        None => seq![],
    }
}

/// Whether inference finds an impl: it finds a trait, and one or more impls for it.
pub open spec fn can_infer(ctx: ComputationContext, q: SelfQuestion) -> bool {
    match lookup(ctx.self_answers@, q) {
        Some(a) => a.by_self is Some && (a.solutions matches Ok(s) && s != SolutionSet::Empty),
        None => false,
    }
}

/// The error of the search for impls of a trait.
pub open spec fn solution_error(
    concrete_trait_id: ConcreteTraitId,
    solutions: Result<SolutionSet, Option<InferenceError>>,
) -> Option<InferenceError> {
    match solutions {
        Ok(SolutionSet::Empty) => Some(InferenceError::NoImplsFound(concrete_trait_id)),
        Ok(_) => None,
        Err(e) => e,
    }
}

/// The errors of the search for an impl, in the order in which they come up.
pub open spec fn inference_errors_of(ctx: ComputationContext, q: SelfQuestion) -> Seq<
    (TraitFunctionId, InferenceError),
> {
    match lookup(ctx.self_answers@, q) {
        Some(a) => a.errors@ + match a.by_self {
            Some(b) => error_list(q.trait_function_id, a.solve_error) + error_list(
                q.trait_function_id,
                solution_error(b.concrete_trait_id, a.solutions),
            ),
            None => seq![],
        },
        None => seq![],
    }
}

/// Adds an error, where there is one.
fn push_error(
    inference_errors: &mut Vec<(TraitFunctionId, InferenceError)>,
    trait_function_id: TraitFunctionId,
    error: Option<InferenceError>,
)
    ensures
        final(inference_errors)@ == old(inference_errors)@ + error_list(trait_function_id, error),
{
    if let Some(err) = error {
        inference_errors.push((trait_function_id, err));
    }
    assert(inference_errors@ =~= old(inference_errors)@ + error_list(trait_function_id, error));
}

/// Checks if an impl of a trait function with a given self_ty exists.
///
/// `inference_errors` are aggregated here but are not reported here as diagnostics.
/// The caller has to make sure the diagnostics are reported appropriately.
pub fn can_infer_impl_by_self(
    ctx: &ComputationContext,
    inference_errors: &mut Vec<(TraitFunctionId, InferenceError)>,
    trait_function_id: TraitFunctionId,
    self_ty: TypeId,
    stable_ptr: SyntaxStablePtrId,
) -> (res: bool)
    ensures
        ({
            let q = SelfQuestion { trait_function_id, self_ty, stable_ptr };
            &&& res == can_infer(*ctx, q)
            &&& final(inference_errors)@ == old(inference_errors)@ + inference_errors_of(*ctx, q)
        }),
{
    let ghost before = inference_errors@;
    let question = SelfQuestion { trait_function_id, self_ty, stable_ptr };
    let answer = match ctx.self_answers.get(&question) {
        Some(answer) => answer,
        None => {
            assert(inference_errors@ =~= before + inference_errors_of(*ctx, question));
            return false;
        },
    };
    let mut i: usize = 0;
    assert(before + answer.errors@.take(0) =~= before);
    while i < answer.errors.len()
        invariant
            i <= answer.errors.len(),
            inference_errors@ == before + answer.errors@.take(i as int),
        decreases answer.errors.len() - i,
    {
        inference_errors.push(answer.errors[i]);
        i += 1;
        assert(inference_errors@ =~= before + answer.errors@.take(i as int));
    }
    assert(answer.errors@.take(i as int) =~= answer.errors@);
    let concrete_trait_id = match answer.by_self {
        Some(by_self) => by_self.concrete_trait_id,
        None => {
            assert(inference_errors@ =~= before + inference_errors_of(*ctx, question));
            return false;
        },
    };
    // Find impls for it. Errors are propagated and will be reported later.
    push_error(inference_errors, trait_function_id, answer.solve_error);
    let (found, error) = match answer.solutions {
        Ok(SolutionSet::Unique) | Ok(SolutionSet::Ambiguous) => (true, None),
        Ok(SolutionSet::Empty) => (
            false,
            Some(InferenceError::NoImplsFound(concrete_trait_id)),
        ),
        Err(e) => (false, e),
    };
    push_error(inference_errors, trait_function_id, error);
    assert(inference_errors@ =~= before + inference_errors_of(*ctx, question));
    found
}

// --- The impl ---

/// The function that is called: that of the impl that inference gives, with the generic arguments
/// that are written.
pub open spec fn self_function(
    ctx: ComputationContext,
    q: SelfQuestion,
    generic_args_syntax: Seq<GenericArg>,
) -> Maybe<(FunctionView, usize)> {
    match ctx.spec_by_self(q) {
        Some(b) => match lookup(
            ctx.generic_args_answers@,
            generic_args_question(q, b, generic_args_syntax),
        ) {
            Some(a) => match a.generic_args {
                Ok(generic_args) => Ok(
                    (
                        FunctionLongId {
                            generic_function: GenericFunctionId::Impl(
                                ImplGenericFunctionId {
                                    impl_id: b.impl_id,
                                    function: q.trait_function_id,
                                },
                            ),
                            generic_args: generic_args@,
                        },
                        b.n_snapshots,
                    ),
                ),
                Err(e) => Err(e),
            },
            None => Err(DiagnosticAdded),
        },
        None => Err(DiagnosticAdded),
    }
}

/// The function of the trait that a function is called through.
pub open spec fn called_function(q: SelfQuestion, b: TraitBySelf) -> ConcreteTraitGenericFunctionId {
    ConcreteTraitGenericFunctionId {
        concrete_trait: b.concrete_trait_id,
        trait_function_id: q.trait_function_id,
    }
}

/// What is asked about the generic arguments of a function.
pub open spec fn generic_args_question(
    q: SelfQuestion,
    b: TraitBySelf,
    generic_args_syntax: Seq<GenericArg>,
) -> GenericArgsQuestion<Seq<GenericArg>> {
    GenericArgsQuestion {
        impl_id: b.impl_id,
        function: called_function(q, b),
        generic_args: generic_args_syntax,
        stable_ptr: q.stable_ptr,
    }
}

/// The diagnostics of the generic arguments of a function.
pub open spec fn self_function_diagnostics(
    ctx: ComputationContext,
    q: SelfQuestion,
    generic_args_syntax: Seq<GenericArg>,
) -> Seq<OutsideDiagnostic> {
    match ctx.spec_by_self(q) {
        Some(b) => match lookup(
            ctx.generic_args_answers@,
            generic_args_question(q, b, generic_args_syntax),
        ) {
            Some(a) => a.diagnostics@,
            None => seq![],
        },
        None => seq![],
    }
}

/// The generic arguments that are written; none where there are no brackets.
pub open spec fn written_args(generic_args_syntax: Option<Vec<GenericArg>>) -> Seq<GenericArg> {
    match generic_args_syntax {
        Some(args) => args@,
        None => seq![],
    }
}

/// Returns an impl of a given trait function with a given self_ty, as well as the number of
/// snapshots needed to be added to it.
pub fn infer_impl_by_self(
    db: &mut SemanticGroup,
    ctx: &mut ComputationContext,
    trait_function_id: TraitFunctionId,
    self_ty: TypeId,
    stable_ptr: SyntaxStablePtrId,
    generic_args_syntax: Option<Vec<GenericArg>>,
) -> (res: Maybe<(FunctionId, usize)>)
    requires
        old(db).wf(),
        old(ctx).valid(old(db).sizes()),
        ({
            let q = SelfQuestion { trait_function_id, self_ty, stable_ptr };
            old(ctx).spec_by_self(q) matches Some(b) ==> old(db).spec_trait_function_params(
                called_function(q, b),
            ) is Ok
        }),
    ensures
        final(db).wf(),
        final(db).grown_from(*old(db)),
        final(ctx).self_answers == old(ctx).self_answers,
        final(ctx).generic_args_answers == old(ctx).generic_args_answers,
        ({
            let q = SelfQuestion { trait_function_id, self_ty, stable_ptr };
            let written = written_args(generic_args_syntax);
            &&& final(ctx).diagnostics@ == old(ctx).diagnostics@ + outside_view(
                self_function_diagnostics(*old(ctx), q, written),
            )
            &&& match self_function(*old(ctx), q, written) {
                Ok((long, n_snapshots)) => res matches Ok((id, n)) && n == n_snapshots && id.0
                    < final(db).interned@.functions.len()
                    && final(db).interned@.functions[id.0 as int] == long,
                Err(e) => res == Err::<(FunctionId, usize), _>(e) && *final(db) == *old(db),
            }
        }),
{
    let ghost start = *ctx;
    let question = SelfQuestion { trait_function_id, self_ty, stable_ptr };
    let ghost written = written_args(generic_args_syntax);
    let by_self = match ctx.self_answers.get(&question) {
        Some(answer) => answer.by_self,
        None => None,
    };
    let by_self = match by_self {
        Some(by_self) => by_self,
        None => {
            assert(ctx.diagnostics@ =~= start.diagnostics@ + outside_view(
                self_function_diagnostics(start, question, written),
            ));
            return Err(skip_diagnostic());
        },
    };
    let function = ConcreteTraitGenericFunctionId {
        concrete_trait: by_self.concrete_trait_id,
        trait_function_id,
    };
    let generic_args = match generic_args_syntax {
        Some(generic_args) => generic_args,
        None => Vec::new(),
    };
    assert(generic_args@ =~= written);
    let args_question = GenericArgsQuestion {
        impl_id: by_self.impl_id,
        function,
        generic_args,
        stable_ptr,
    };
    assert(args_question@ == generic_args_question(question, by_self, written));
    let generic_args: Maybe<Vec<GenericArgumentId>> = match ctx.generic_args_answers.get(
        &args_question,
    ) {
        Some(answer) => {
            ctx.diagnostics.extend_outside(&answer.diagnostics);
            match &answer.generic_args {
                Ok(generic_args) => Ok(copy_ids(generic_args)),
                Err(e) => Err(*e),
            }
        },
        None => Err(skip_diagnostic()),
    };
    assert(ctx.diagnostics@ =~= start.diagnostics@ + outside_view(
        self_function_diagnostics(start, question, written),
    ));
    match generic_args {
        Ok(generic_args) => {
            let generic_function = GenericFunctionId::Impl(
                ImplGenericFunctionId { impl_id: by_self.impl_id, function: trait_function_id },
            );
            let id = db.intern_function(FunctionLongId { generic_function, generic_args });
            Ok((id, by_self.n_snapshots))
        },
        Err(e) => Err(e),
    }
}

// --- The candidates ---

/// The function of a trait that a name stands for.
pub open spec fn named_function(db: SemanticGroup, trait_id: TraitId, name: SmolStrId) -> Option<
    TraitFunctionId,
> {
    match db.spec_trait_function_by_name(trait_id, name) {
        Ok(f) => f,
        Err(_) => None,
    }
}

/// The functions with a name that can be called on a type, one for each trait that has one.
pub open spec fn callable_functions(
    db: SemanticGroup,
    ctx: ComputationContext,
    traits: Seq<TraitId>,
    name: SmolStrId,
    self_ty: TypeId,
    stable_ptr: SyntaxStablePtrId,
) -> Seq<TraitFunctionId>
    decreases traits.len(),
{
    if traits.len() == 0 {
        seq![]
    } else {
        let before = callable_functions(db, ctx, traits.drop_last(), name, self_ty, stable_ptr);
        match named_function(db, traits.last(), name) {
            Some(f) if can_infer(
                ctx,
                SelfQuestion { trait_function_id: f, self_ty, stable_ptr },
            ) => before.push(f),
            _ => before,
        }
    }
}

/// The errors of the search for the functions with a name that can be called on a type.
pub open spec fn callable_errors(
    db: SemanticGroup,
    ctx: ComputationContext,
    traits: Seq<TraitId>,
    name: SmolStrId,
    self_ty: TypeId,
    stable_ptr: SyntaxStablePtrId,
) -> Seq<(TraitFunctionId, InferenceError)>
    decreases traits.len(),
{
    if traits.len() == 0 {
        seq![]
    } else {
        let before = callable_errors(db, ctx, traits.drop_last(), name, self_ty, stable_ptr);
        match named_function(db, traits.last(), name) {
            Some(f) => before + inference_errors_of(
                ctx,
                SelfQuestion { trait_function_id: f, self_ty, stable_ptr },
            ),
            None => before,
        }
    }
}

/// Returns all the trait functions that fit the given function name, can be called on the given
/// `self_ty`, and have at least one implementation in context.
///
/// `inference_errors` are aggregated here but are not reported here as diagnostics.
/// The caller has to make sure the diagnostics are reported appropriately.
pub fn filter_candidate_traits(
    db: &SemanticGroup,
    ctx: &ComputationContext,
    inference_errors: &mut Vec<(TraitFunctionId, InferenceError)>,
    self_ty: TypeId,
    candidate_traits: &Vec<TraitId>,
    function_name: SmolStrId,
    stable_ptr: SyntaxStablePtrId,
) -> (res: Vec<TraitFunctionId>)
    ensures
        res@ == callable_functions(
            *db,
            *ctx,
            candidate_traits@,
            function_name,
            self_ty,
            stable_ptr,
        ),
        final(inference_errors)@ == old(inference_errors)@ + callable_errors(
            *db,
            *ctx,
            candidate_traits@,
            function_name,
            self_ty,
            stable_ptr,
        ),
{
    let ghost before = inference_errors@;
    let mut candidates: Vec<TraitFunctionId> = Vec::new();
    let mut i: usize = 0;
    assert(inference_errors@ =~= before + Seq::<(TraitFunctionId, InferenceError)>::empty());
    while i < candidate_traits.len()
        invariant
            i <= candidate_traits.len(),
            candidates@ == callable_functions(
                *db,
                *ctx,
                candidate_traits@.take(i as int),
                function_name,
                self_ty,
                stable_ptr,
            ),
            inference_errors@ == before + callable_errors(
                *db,
                *ctx,
                candidate_traits@.take(i as int),
                function_name,
                self_ty,
                stable_ptr,
            ),
        decreases candidate_traits.len() - i,
    {
        let ghost so_far = inference_errors@;
        let trait_id = candidate_traits[i];
        proof {
            let next = candidate_traits@.take(i + 1);
            assert(next.drop_last() =~= candidate_traits@.take(i as int));
            assert(next.last() == trait_id);
        }
        if let Ok(Some(trait_function)) = db.trait_function_by_name(trait_id, function_name) {
            if can_infer_impl_by_self(
                ctx,
                inference_errors,
                trait_function,
                self_ty,
                stable_ptr,
            ) {
                candidates.push(trait_function);
            }
            assert(inference_errors@ =~= before + callable_errors(
                *db,
                *ctx,
                candidate_traits@.take(i + 1),
                function_name,
                self_ty,
                stable_ptr,
            ));
        }
        i += 1;
    }
    assert(candidate_traits@.take(i as int) =~= candidate_traits@);
    candidates
}

/// A function is a candidate exactly if one of the traits has it under the name, and inference
/// finds an impl for it.
pub proof fn law_candidates_are_the_callable_functions(
    db: SemanticGroup,
    ctx: ComputationContext,
    traits: Seq<TraitId>,
    name: SmolStrId,
    self_ty: TypeId,
    stable_ptr: SyntaxStablePtrId,
    f: TraitFunctionId,
)
    ensures
        callable_functions(db, ctx, traits, name, self_ty, stable_ptr).contains(f) <==> (can_infer(
            ctx,
            SelfQuestion { trait_function_id: f, self_ty, stable_ptr },
        ) && exists|i: int|
            0 <= i < traits.len() && named_function(db, #[trigger] traits[i], name) == Some(f)),
    decreases traits.len(),
{
    if traits.len() > 0 {
        let init = traits.drop_last();
        let before = callable_functions(db, ctx, init, name, self_ty, stable_ptr);
        let all = callable_functions(db, ctx, traits, name, self_ty, stable_ptr);
        law_candidates_are_the_callable_functions(db, ctx, init, name, self_ty, stable_ptr, f);
        if all.contains(f) {
            let k = choose|k: int| 0 <= k < all.len() && all[k] == f;
            if k < before.len() {
                assert(before[k] == f);
                let i = choose|i: int|
                    0 <= i < init.len() && named_function(db, #[trigger] init[i], name) == Some(f);
                assert(traits[i] == init[i]);
            } else {
                assert(named_function(db, traits[traits.len() - 1], name) == Some(f));
            }
        }
        if can_infer(ctx, SelfQuestion { trait_function_id: f, self_ty, stable_ptr }) && exists|
            i: int,
        |
            0 <= i < traits.len() && named_function(db, #[trigger] traits[i], name) == Some(f) {
            let i = choose|i: int|
                0 <= i < traits.len() && named_function(db, #[trigger] traits[i], name) == Some(f);
            if i < init.len() {
                assert(init[i] == traits[i]);
                let k = choose|k: int| 0 <= k < before.len() && before[k] == f;
                assert(all[k] == f);
            } else {
                assert(all.last() == f);
            }
        }
    }
}

// --- Laws ---

/// An impl can be inferred for a call exactly if a trait is found for it and its search for impls
/// finds one or more. The errors that were met on the way come first, then that of solving, then
/// that of the search, which fails with an error of its own where it finds none.
pub proof fn law_impls_are_inferred_where_the_trait_has_some(
    ctx: ComputationContext,
    q: SelfQuestion,
)
    ensures
        match lookup(ctx.self_answers@, q) {
            Some(a) => {
                let errors = inference_errors_of(ctx, q);
                let n = a.errors@.len();
                &&& can_infer(ctx, q) <==> a.by_self is Some && (a.solutions matches Ok(
                    SolutionSet::Unique,
                ) || a.solutions matches Ok(SolutionSet::Ambiguous))
                &&& a.errors@.is_prefix_of(errors)
                &&& a.by_self is None ==> errors.len() == n
                &&& a.by_self matches Some(b) ==> {
                    let solving = if a.solve_error is Some {
                        1int
                    } else {
                        0
                    };
                    let reason = match a.solutions {
                        Ok(SolutionSet::Empty) => Some(
                            InferenceError::NoImplsFound(b.concrete_trait_id),
                        ),
                        Ok(SolutionSet::Unique) => None,
                        Ok(SolutionSet::Ambiguous) => None,
                        Err(e) => e,
                    };
                    &&& a.solve_error matches Some(e) ==> errors[n as int] == (
                        q.trait_function_id,
                        e,
                    )
                    &&& reason matches Some(e) ==> errors[n + solving] == (q.trait_function_id, e)
                    &&& errors.len() == n + solving + if reason is Some {
                        1int
                    } else {
                        0
                    }
                }
            },
            None => !can_infer(ctx, q) && inference_errors_of(ctx, q).len() == 0,
        },
{
}

/// The function that a call stands for is the one of the impl that inference gives, with the generic
/// arguments that are recorded for those that are written, and with as many snapshots as inference
/// says. What is reported of the arguments is reported of the call.
pub proof fn law_calls_stand_for_the_function_of_the_impl(
    ctx: ComputationContext,
    q: SelfQuestion,
    written: Seq<GenericArg>,
    a: SelfAnswer,
    b: TraitBySelf,
)
    requires
        lookup(ctx.self_answers@, q) == Some(a),
        a.by_self == Some(b),
    ensures
        ({
            let question = GenericArgsQuestion {
                impl_id: b.impl_id,
                function: ConcreteTraitGenericFunctionId {
                    concrete_trait: b.concrete_trait_id,
                    trait_function_id: q.trait_function_id,
                },
                generic_args: written,
                stable_ptr: q.stable_ptr,
            };
            match lookup(ctx.generic_args_answers@, question) {
                Some(answer) => {
                    &&& self_function_diagnostics(ctx, q, written) == answer.diagnostics@
                    &&& match answer.generic_args {
                        Ok(args) => self_function(ctx, q, written) matches Ok((function, n)) && n
                            == b.n_snapshots && function.generic_args == args@ && (
                        function.generic_function matches GenericFunctionId::Impl(f) && f.impl_id
                            == b.impl_id && f.function == q.trait_function_id),
                        Err(_) => self_function(ctx, q, written) is Err,
                    }
                },
                None => self_function(ctx, q, written) is Err && self_function_diagnostics(
                    ctx,
                    q,
                    written,
                ).len() == 0,
            }
        }),
{
}

/// A call for which no trait is found stands for no function.
pub proof fn law_calls_without_a_trait_stand_for_nothing(
    ctx: ComputationContext,
    q: SelfQuestion,
    written: Seq<GenericArg>,
)
    requires
        lookup(ctx.self_answers@, q) matches Some(a) ==> a.by_self is None,
    ensures
        self_function(ctx, q, written) is Err,
        self_function_diagnostics(ctx, q, written).len() == 0,
{
}

/// A trait gives a candidate exactly if it has a function of the name and an impl can be inferred
/// for that; it gives the errors of that function in any case.
pub proof fn law_a_trait_gives_its_function(
    db: SemanticGroup,
    ctx: ComputationContext,
    trait_id: TraitId,
    name: SmolStrId,
    self_ty: TypeId,
    stable_ptr: SyntaxStablePtrId,
)
    ensures
        ({
            let found = callable_functions(db, ctx, seq![trait_id], name, self_ty, stable_ptr);
            let errors = callable_errors(db, ctx, seq![trait_id], name, self_ty, stable_ptr);
            let function = match lookup(db.facts.traits@, trait_id) {
                Some(f) => match f.functions {
                    Ok(functions) => lookup(functions@, name),
                    Err(_) => None,
                },
                None => None,
            };
            match function {
                Some(f) => {
                    let q = SelfQuestion { trait_function_id: f, self_ty, stable_ptr };
                    &&& can_infer(ctx, q) ==> found == seq![f]
                    &&& !can_infer(ctx, q) ==> found.len() == 0
                    &&& errors == inference_errors_of(ctx, q)
                },
                None => found.len() == 0 && errors.len() == 0,
            }
        }),
{
    reveal_with_fuel(callable_functions, 2);
    reveal_with_fuel(callable_errors, 2);
    assert(seq![trait_id].drop_last() =~= seq![]);
    let empty = callable_functions(db, ctx, seq![], name, self_ty, stable_ptr);
    assert(empty =~= seq![]);
    assert(callable_errors(db, ctx, seq![], name, self_ty, stable_ptr) =~= seq![]);
}

/// The candidates and the errors come in the order of the traits.
pub proof fn law_candidates_come_in_the_order_of_the_traits(
    db: SemanticGroup,
    ctx: ComputationContext,
    first: Seq<TraitId>,
    second: Seq<TraitId>,
    name: SmolStrId,
    self_ty: TypeId,
    stable_ptr: SyntaxStablePtrId,
)
    ensures
        callable_functions(db, ctx, first + second, name, self_ty, stable_ptr)
            == callable_functions(db, ctx, first, name, self_ty, stable_ptr) + callable_functions(
            db,
            ctx,
            second,
            name,
            self_ty,
            stable_ptr,
        ),
        callable_errors(db, ctx, first + second, name, self_ty, stable_ptr) == callable_errors(
            db,
            ctx,
            first,
            name,
            self_ty,
            stable_ptr,
        ) + callable_errors(db, ctx, second, name, self_ty, stable_ptr),
    decreases second.len(),
{
    let all = first + second;
    if second.len() == 0 {
        assert(all =~= first);
    } else {
        assert(all.drop_last() =~= first + second.drop_last());
        assert(all.last() == second.last());
        law_candidates_come_in_the_order_of_the_traits(
            db,
            ctx,
            first,
            second.drop_last(),
            name,
            self_ty,
            stable_ptr,
        );
    }
}

} // verus!
