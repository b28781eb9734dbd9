//! Whether a function of an impl has the signature that the trait asks for.

use vstd::prelude::*;

use crate::collections::{has_key, lookup};
use crate::db::SemanticGroup;
use crate::declaration::impl_def_concrete_trait;
use crate::definition::lemma_definition_grown;
use crate::diagnostics::{
    diagnostic, DiagnosticAdded, DiagnosticView, ItemKind, KindView, Maybe, SemanticDiagnostic,
    SemanticDiagnosticKind, SemanticDiagnostics,
};
use crate::facts::{
    ConcreteTraitGenericFunctionId, Inference, Parameter, Signature, SignatureView,
};
use crate::ids::{
    ConcreteTraitId, ImplDefId, ImplFunctionId, SyntaxStablePtrId, TraitFunctionId, TraitId,
    TypeId,
};
use crate::model::{GenericArgumentId, GenericParam, GenericParamImpl, Mutability, TypeLongId};
use crate::queries::{made_by_both, made_of};
use crate::substitution::{substitution_of, GenericSubstitution, SubstitutionView};
use crate::syntax::FunctionWithBody;

verus! {

/// What is reported, and what comes out.
#[verifier::ext_equal]
pub struct Outcome<T> {
    pub diagnostics: Seq<DiagnosticView>,
    pub result: Maybe<T>,
}

/// A function of an impl and the trait that it implements a function of.
#[derive(Clone, Copy)]
pub struct Implementation {
    pub impl_def_id: ImplDefId,
    pub impl_function_id: ImplFunctionId,
    pub trait_id: TraitId,
}

// --- Generic parameters ---

/// What is reported where a generic parameter is not named as in the trait.
pub open spec fn generic_name_diagnostics(
    of: Implementation,
    actual: GenericParam,
    expected: GenericParam,
) -> Seq<DiagnosticView> {
    match expected.spec_id().name {
        Some(name) => if actual.spec_id().name == Some(name) {
            seq![]
        } else {
            seq![
                diagnostic(
                    actual.spec_id().stable_ptr,
                    SemanticDiagnosticKind::WrongParameterName {
                        impl_def_id: of.impl_def_id,
                        impl_function_id: of.impl_function_id,
                        trait_id: of.trait_id,
                        expected_name: name,
                    },
                ),
            ]
        },
        None => seq![],
    }
}

/// Whether an impl parameter asks for what the trait asks for, once the parameters of the trait
/// function are replaced. Where either trait is not resolved there is nothing to compare.
pub open spec fn impl_param_outcome(
    db: SemanticGroup,
    s: SubstitutionView,
    of: Implementation,
    actual: GenericParamImpl,
    expected: GenericParamImpl,
) -> Outcome<()> {
    match (
        db.spec_substitute_maybe_trait(s, expected.concrete_trait),
        db.spec_substitute_constraints(s, expected.type_constraints),
    ) {
        (Ok(expected_trait), Ok(constraints)) => Outcome {
            diagnostics: match (actual.concrete_trait, expected_trait) {
                (Ok(actual_trait), Ok(expected_trait)) => if actual_trait != expected_trait
                    || actual.type_constraints != constraints {
                    seq![
                        diagnostic(
                            actual.id.stable_ptr,
                            SemanticDiagnosticKind::WrongGenericParamTraitForImplFunction {
                                impl_def_id: of.impl_def_id,
                                impl_function_id: of.impl_function_id,
                                trait_id: of.trait_id,
                                expected_trait,
                                actual_trait,
                            },
                        ),
                    ]
                } else {
                    seq![]
                },
                _ => seq![],
            },
            result: Ok(()),
        },
        _ => Outcome { diagnostics: seq![], result: Err(DiagnosticAdded) },
    }
}

/// Whether a generic parameter is of the kind, and asks for what, the trait asks for.
pub open spec fn generic_kind_outcome(
    db: SemanticGroup,
    s: SubstitutionView,
    of: Implementation,
    actual: GenericParam,
    expected: GenericParam,
) -> Outcome<()> {
    match (actual, expected) {
        (GenericParam::Type(_), GenericParam::Type(_)) => Outcome {
            diagnostics: seq![],
            result: Ok(()),
        },
        (GenericParam::Impl(a), GenericParam::Impl(e)) => impl_param_outcome(db, s, of, a, e),
        (GenericParam::NegImpl(a), GenericParam::NegImpl(e)) => impl_param_outcome(
            db,
            s,
            of,
            a,
            e,
        ),
        (GenericParam::Const(a), GenericParam::Const(e)) => match db.spec_substitute_type(
            s,
            e.ty,
        ) {
            Ok(expected_ty) => Outcome {
                diagnostics: if a.ty != expected_ty {
                    seq![
                        diagnostic(
                            a.id.stable_ptr,
                            SemanticDiagnosticKind::WrongParameterType {
                                impl_def_id: of.impl_def_id,
                                impl_function_id: of.impl_function_id,
                                trait_id: of.trait_id,
                                expected_ty,
                                actual_ty: a.ty,
                            },
                        ),
                    ]
                } else {
                    seq![]
                },
                result: Ok(()),
            },
            Err(e) => Outcome { diagnostics: seq![], result: Err(e) },
        },
        _ => Outcome {
            diagnostics: seq![
                diagnostic(
                    actual.spec_id().stable_ptr,
                    SemanticDiagnosticKind::WrongGenericParamKindForImplFunction {
                        impl_def_id: of.impl_def_id,
                        impl_function_id: of.impl_function_id,
                        trait_id: of.trait_id,
                        expected_kind: expected.spec_kind(),
                        actual_kind: actual.spec_kind(),
                    },
                ),
            ],
            result: Ok(()),
        },
    }
}

/// The comparison of one generic parameter: its name, then its kind.
pub open spec fn generic_outcome(
    db: SemanticGroup,
    s: SubstitutionView,
    of: Implementation,
    actual: GenericParam,
    expected: GenericParam,
) -> Outcome<()> {
    let kind = generic_kind_outcome(db, s, of, actual, expected);
    Outcome {
        diagnostics: generic_name_diagnostics(of, actual, expected) + kind.diagnostics,
        result: kind.result,
    }
}

/// The comparison of generic parameters one by one, up to the first that cannot be compared.
pub open spec fn generics_outcome(
    db: SemanticGroup,
    s: SubstitutionView,
    of: Implementation,
    actual: Seq<GenericParam>,
    expected: Seq<GenericParam>,
    count: nat,
) -> Outcome<()>
    decreases count,
{
    if count == 0 {
        Outcome { diagnostics: seq![], result: Ok(()) }
    } else {
        let before = generics_outcome(db, s, of, actual, expected, (count - 1) as nat);
        if before.result is Err {
            before
        } else {
            let one = generic_outcome(db, s, of, actual[count - 1], expected[count - 1]);
            Outcome { diagnostics: before.diagnostics + one.diagnostics, result: one.result }
        }
    }
}

/// Compares an impl parameter with that of the trait function.
fn check_impl_param(
    db: &SemanticGroup,
    diagnostics: &mut SemanticDiagnostics,
    s: &GenericSubstitution,
    of: Implementation,
    actual: GenericParamImpl,
    expected: GenericParamImpl,
) -> (res: Maybe<()>)
    requires
        db.wf(),
    ensures
        ({
            let outcome = impl_param_outcome(*db, s@, of, actual, expected);
            res == outcome.result && final(diagnostics)@ == old(diagnostics)@ + outcome.diagnostics
        }),
{
    let ghost before = diagnostics@;
    assert(before + Seq::<DiagnosticView>::empty() =~= before);
    let rewritten_trait_param_trait = match db.substitute_maybe_trait(s, expected.concrete_trait) {
        Ok(rewritten) => rewritten,
        Err(e) => return Err(e),
    };
    let rewritten_trait_param_type_constraints = match db.substitute_constraints(
        s,
        expected.type_constraints,
    ) {
        Ok(rewritten) => rewritten,
        Err(e) => return Err(e),
    };
    if let Ok(actual_trait) = actual.concrete_trait {
        if let Ok(expected_trait) = rewritten_trait_param_trait {
            if actual_trait != expected_trait || actual.type_constraints
                != rewritten_trait_param_type_constraints {
                diagnostics.report(
                    actual.id.stable_ptr,
                    SemanticDiagnosticKind::WrongGenericParamTraitForImplFunction {
                        impl_def_id: of.impl_def_id,
                        impl_function_id: of.impl_function_id,
                        trait_id: of.trait_id,
                        expected_trait,
                        actual_trait,
                    },
                );
                assert(diagnostics@ =~= before + impl_param_outcome(
                    *db,
                    s@,
                    of,
                    actual,
                    expected,
                ).diagnostics);
            }
        }
    }
    Ok(())
}

/// Compares a generic parameter with that of the trait function.
fn check_generic_param(
    db: &SemanticGroup,
    diagnostics: &mut SemanticDiagnostics,
    s: &GenericSubstitution,
    of: Implementation,
    actual: GenericParam,
    expected: GenericParam,
) -> (res: Maybe<()>)
    requires
        db.wf(),
    ensures
        ({
            let outcome = generic_outcome(*db, s@, of, actual, expected);
            res == outcome.result && final(diagnostics)@ == old(diagnostics)@ + outcome.diagnostics
        }),
{
    let ghost before = diagnostics@;
    let ghost outcome = generic_outcome(*db, s@, of, actual, expected);
    if let Some(expected_name) = expected.id().name {
        let named = match actual.id().name {
            Some(name) => name == expected_name,
            None => false,
        };
        if !named {
            diagnostics.report(
                actual.id().stable_ptr,
                SemanticDiagnosticKind::WrongParameterName {
                    impl_def_id: of.impl_def_id,
                    impl_function_id: of.impl_function_id,
                    trait_id: of.trait_id,
                    expected_name,
                },
            );
        }
    }
    let ghost names = generic_name_diagnostics(of, actual, expected);
    assert(diagnostics@ =~= before + names);
    let ghost kinds = generic_kind_outcome(*db, s@, of, actual, expected).diagnostics;
    assert((before + names) + kinds =~= before + (names + kinds));
    match (actual, expected) {
        (GenericParam::Type(_), GenericParam::Type(_)) => {
            assert(diagnostics@ =~= before + outcome.diagnostics);
            Ok(())
        },
        (GenericParam::Impl(a), GenericParam::Impl(e)) => check_impl_param(
            db,
            diagnostics,
            s,
            of,
            a,
            e,
        ),
        (GenericParam::NegImpl(a), GenericParam::NegImpl(e)) => check_impl_param(
            db,
            diagnostics,
            s,
            of,
            a,
            e,
        ),
        (GenericParam::Const(a), GenericParam::Const(e)) => {
            let expected_ty = match db.substitute_type(s, e.ty) {
                Ok(ty) => ty,
                Err(e) => {
                    assert(diagnostics@ =~= before + outcome.diagnostics);
                    return Err(e);
                },
            };
            if a.ty != expected_ty {
                diagnostics.report(
                    a.id.stable_ptr,
                    SemanticDiagnosticKind::WrongParameterType {
                        impl_def_id: of.impl_def_id,
                        impl_function_id: of.impl_function_id,
                        trait_id: of.trait_id,
                        expected_ty,
                        actual_ty: a.ty,
                    },
                );
            }
            assert(diagnostics@ =~= before + outcome.diagnostics);
            Ok(())
        },
        _ => {
            diagnostics.report(
                actual.id().stable_ptr,
                SemanticDiagnosticKind::WrongGenericParamKindForImplFunction {
                    impl_def_id: of.impl_def_id,
                    impl_function_id: of.impl_function_id,
                    trait_id: of.trait_id,
                    expected_kind: expected.kind(),
                    actual_kind: actual.kind(),
                },
            );
            assert(diagnostics@ =~= before + outcome.diagnostics);
            Ok(())
        },
    }
}

/// Compares the generic parameters with those of the trait function.
fn check_generic_params(
    db: &SemanticGroup,
    diagnostics: &mut SemanticDiagnostics,
    s: &GenericSubstitution,
    of: Implementation,
    actual: &Vec<GenericParam>,
    expected: &Vec<GenericParam>,
) -> (res: Maybe<()>)
    requires
        db.wf(),
        actual@.len() == expected@.len(),
    ensures
        ({
            let outcome = generics_outcome(*db, s@, of, actual@, expected@, actual@.len());
            res == outcome.result && final(diagnostics)@ == old(diagnostics)@ + outcome.diagnostics
        }),
{
    let ghost before = diagnostics@;
    let mut i: usize = 0;
    assert(before + Seq::<DiagnosticView>::empty() =~= before);
    while i < actual.len()
        invariant
            db.wf(),
            i <= actual@.len() == expected@.len(),
            generics_outcome(*db, s@, of, actual@, expected@, i as nat).result is Ok,
            diagnostics@ == before + generics_outcome(
                *db,
                s@,
                of,
                actual@,
                expected@,
                i as nat,
            ).diagnostics,
            before == old(diagnostics)@,
        decreases actual.len() - i,
    {
        let ghost so_far = generics_outcome(*db, s@, of, actual@, expected@, i as nat);
        let ghost one = generic_outcome(*db, s@, of, actual@[i as int], expected@[i as int]);
        let checked = check_generic_param(db, diagnostics, s, of, actual[i], expected[i]);
        assert((before + so_far.diagnostics) + one.diagnostics =~= before + (so_far.diagnostics
            + one.diagnostics));
        proof {
            if checked is Err {
                lemma_generics_stuck(*db, s@, of, actual@, expected@, (i + 1) as nat, actual@.len());
            }
        }
        if let Err(e) = checked {
            return Err(e);
        }
        i += 1;
    }
    Ok(())
}

/// Once a generic parameter cannot be compared, the later ones are not.
proof fn lemma_generics_stuck(
    db: SemanticGroup,
    s: SubstitutionView,
    of: Implementation,
    actual: Seq<GenericParam>,
    expected: Seq<GenericParam>,
    m: nat,
    n: nat,
)
    requires
        m <= n,
        generics_outcome(db, s, of, actual, expected, m).result is Err,
    ensures
        generics_outcome(db, s, of, actual, expected, n) == generics_outcome(
            db,
            s,
            of,
            actual,
            expected,
            m,
        ),
    decreases n - m,
{
    if m < n {
        lemma_generics_stuck(db, s, of, actual, expected, m, (n - 1) as nat);
    }
}

// --- Parameters ---

/// Whether two types differ, and neither is missing.
pub open spec fn types_differ(db: SemanticGroup, expected: TypeId, actual: TypeId) -> bool {
    expected != actual && !(db.spec_type_long(expected) is Missing) && !(db.spec_type_long(actual)
        is Missing)
}

fn check_types_differ(db: &SemanticGroup, expected: TypeId, actual: TypeId) -> (res: bool)
    requires
        db.has_type(expected),
        db.has_type(actual),
    ensures
        res == types_differ(*db, expected, actual),
{
    let expected_missing = match db.type_long(expected) {
        TypeLongId::Missing(_) => true,
        _ => false,
    };
    let actual_missing = match db.type_long(actual) {
        TypeLongId::Missing(_) => true,
        _ => false,
    };
    expected != actual && !expected_missing && !actual_missing
}

/// A list of at most one diagnostic.
pub open spec fn report_if(condition: bool, stable_ptr: SyntaxStablePtrId, kind: KindView) -> Seq<
    DiagnosticView,
> {
    if condition {
        seq![diagnostic(stable_ptr, kind)]
    } else {
        seq![]
    }
}

/// The comparison of one parameter: its type, how it is passed, its name.
pub open spec fn parameter_diagnostics(
    db: SemanticGroup,
    inference: Inference,
    of: Implementation,
    param: Parameter,
    trait_param: Parameter,
) -> Seq<DiagnosticView> {
    let expected_ty = inference.spec_rewrite_type(trait_param.ty);
    let actual_ty = inference.spec_rewrite_type(param.ty);
    report_if(
        types_differ(db, expected_ty, actual_ty),
        param.type_ptr,
        SemanticDiagnosticKind::WrongParameterType {
            impl_def_id: of.impl_def_id,
            impl_function_id: of.impl_function_id,
            trait_id: of.trait_id,
            expected_ty,
            actual_ty,
        },
    ) + report_if(
        trait_param.mutability == Mutability::Reference && param.mutability
            != Mutability::Reference,
        param.modifiers_ptr,
        SemanticDiagnosticKind::ParameterShouldBeReference {
            impl_def_id: of.impl_def_id,
            impl_function_id: of.impl_function_id,
            trait_id: of.trait_id,
        },
    ) + report_if(
        trait_param.mutability != Mutability::Reference && param.mutability
            == Mutability::Reference,
        param.modifiers_ptr,
        SemanticDiagnosticKind::ParameterShouldNotBeReference {
            impl_def_id: of.impl_def_id,
            impl_function_id: of.impl_function_id,
            trait_id: of.trait_id,
        },
    ) + report_if(
        trait_param.name != param.name,
        param.name_ptr,
        SemanticDiagnosticKind::WrongParameterName {
            impl_def_id: of.impl_def_id,
            impl_function_id: of.impl_function_id,
            trait_id: of.trait_id,
            expected_name: trait_param.name,
        },
    )
}

/// The comparison of the first parameters, one by one.
pub open spec fn parameters_diagnostics(
    db: SemanticGroup,
    inference: Inference,
    of: Implementation,
    params: Seq<Parameter>,
    trait_params: Seq<Parameter>,
    count: nat,
) -> Seq<DiagnosticView>
    decreases count,
{
    if count == 0 {
        seq![]
    } else {
        parameters_diagnostics(db, inference, of, params, trait_params, (count - 1) as nat)
            + parameter_diagnostics(
            db,
            inference,
            of,
            params[count - 1],
            trait_params[count - 1],
        )
    }
}

/// Compares one parameter with that of the trait function.
fn check_parameter(
    db: &SemanticGroup,
    diagnostics: &mut SemanticDiagnostics,
    inference: &Inference,
    of: Implementation,
    param: Parameter,
    trait_param: Parameter,
)
    requires
        db.wf(),
        inference.valid(db.sizes()),
        db.has_type(param.ty),
        db.has_type(trait_param.ty),
    ensures
        final(diagnostics)@ == old(diagnostics)@ + parameter_diagnostics(
            *db,
            *inference,
            of,
            param,
            trait_param,
        ),
{
    let ghost before = diagnostics@;
    proof {
        inference.lemma_rewrite_valid(db.sizes());
    }
    let expected_ty = inference.rewrite_type(trait_param.ty);
    let actual_ty = inference.rewrite_type(param.ty);
    if check_types_differ(db, expected_ty, actual_ty) {
        diagnostics.report(
            param.type_ptr,
            SemanticDiagnosticKind::WrongParameterType {
                impl_def_id: of.impl_def_id,
                impl_function_id: of.impl_function_id,
                trait_id: of.trait_id,
                expected_ty,
                actual_ty,
            },
        );
    }
    if trait_param.mutability != param.mutability {
        if trait_param.mutability == Mutability::Reference {
            diagnostics.report(
                param.modifiers_ptr,
                SemanticDiagnosticKind::ParameterShouldBeReference {
                    impl_def_id: of.impl_def_id,
                    impl_function_id: of.impl_function_id,
                    trait_id: of.trait_id,
                },
            );
        }
        if param.mutability == Mutability::Reference {
            diagnostics.report(
                param.modifiers_ptr,
                SemanticDiagnosticKind::ParameterShouldNotBeReference {
                    impl_def_id: of.impl_def_id,
                    impl_function_id: of.impl_function_id,
                    trait_id: of.trait_id,
                },
            );
        }
    }
    if trait_param.name != param.name {
        diagnostics.report(
            param.name_ptr,
            SemanticDiagnosticKind::WrongParameterName {
                impl_def_id: of.impl_def_id,
                impl_function_id: of.impl_function_id,
                trait_id: of.trait_id,
                expected_name: trait_param.name,
            },
        );
    }
    assert(diagnostics@ =~= before + parameter_diagnostics(*db, *inference, of, param, trait_param));
}

// --- The whole signature ---

/// Struct for the parameters of [validate_impl_function_signature].
pub struct ValidateImplFunctionSignatureParams<'r> {
    /// The impl function to validate the signature of.
    pub impl_function_id: ImplFunctionId,
    /// The semantic signature.
    pub signature: &'r Signature,
    /// The impl function syntax.
    pub impl_function_syntax: &'r FunctionWithBody,
    /// The generic parameters of the impl function.
    pub impl_func_generics: &'r Vec<GenericParam>,
    /// The generic parameters, each as an argument for itself.
    pub impl_func_args: &'r Vec<GenericArgumentId>,
}

/// The function whose signature is validated, with its lists as sequences.
pub struct FunctionToValidate {
    pub impl_function_id: ImplFunctionId,
    pub signature: SignatureView,
    pub syntax: FunctionWithBody,
    pub generics: Seq<GenericParam>,
    pub args: Seq<GenericArgumentId>,
}

impl<'r> View for ValidateImplFunctionSignatureParams<'r> {
    type V = FunctionToValidate;

    open spec fn view(&self) -> FunctionToValidate {
        FunctionToValidate {
            impl_function_id: self.impl_function_id,
            signature: self.signature@,
            syntax: *self.impl_function_syntax,
            generics: self.impl_func_generics@,
            args: self.impl_func_args@,
        }
    }
}

/// The smaller of two lengths.
pub open spec fn shorter(m: nat, n: nat) -> nat {
    if m <= n {
        m
    } else {
        n
    }
}

/// Where a wrong return type is reported.
pub open spec fn return_type_ptr(syntax: FunctionWithBody) -> SyntaxStablePtrId {
    match syntax.ret_ty_ptr {
        Some(ptr) => ptr,
        None => syntax.lbrace_ptr,
    }
}

/// The comparison with the signature of the trait function, once all parameters are replaced.
pub open spec fn signature_diagnostics(
    db: SemanticGroup,
    inference: Inference,
    of: Implementation,
    function: FunctionToValidate,
    expected: SignatureView,
) -> Seq<DiagnosticView> {
    let actual = function.signature;
    let expected_ty = inference.spec_rewrite_type(expected.return_type);
    let actual_ty = inference.spec_rewrite_type(actual.return_type);
    parameters_diagnostics(
        db,
        inference,
        of,
        actual.params,
        expected.params,
        shorter(actual.params.len(), expected.params.len()),
    ) + report_if(
        !expected.panicable && actual.panicable,
        function.syntax.signature_ptr,
        SemanticDiagnosticKind::PassPanicAsNopanic {
            impl_function_id: of.impl_function_id,
            trait_id: of.trait_id,
        },
    ) + report_if(
        expected.is_const && !actual.is_const,
        function.syntax.signature_ptr,
        SemanticDiagnosticKind::PassConstAsNonConst {
            impl_function_id: of.impl_function_id,
            trait_id: of.trait_id,
        },
    ) + report_if(
        types_differ(db, expected_ty, actual_ty),
        return_type_ptr(function.syntax),
        SemanticDiagnosticKind::WrongReturnTypeForImpl {
            impl_def_id: of.impl_def_id,
            impl_function_id: of.impl_function_id,
            trait_id: of.trait_id,
            expected_ty,
            actual_ty,
        },
    )
}

/// The comparison of the number of parameters.
pub open spec fn parameter_count_diagnostics(
    of: Implementation,
    function: FunctionToValidate,
    expected: SignatureView,
) -> Seq<DiagnosticView> {
    report_if(
        function.signature.params.len() != expected.params.len(),
        function.syntax.parameters_ptr,
        SemanticDiagnosticKind::WrongNumberOfParameters {
            impl_def_id: of.impl_def_id,
            impl_function_id: of.impl_function_id,
            trait_id: of.trait_id,
            expected: expected.params.len() as usize,
            actual: function.signature.params.len() as usize,
        },
    )
}

/// The comparison with a trait function whose generic parameters are `expected_generics`, as the
/// impl at hand sees them, and whose signature is `expected`.
pub open spec fn matched_outcome(
    db: SemanticGroup,
    inference: Inference,
    of: Implementation,
    function: FunctionToValidate,
    impl_substitution: SubstitutionView,
    expected_generics: Seq<GenericParam>,
    expected: SignatureView,
    trait_function_id: TraitFunctionId,
) -> Outcome<TraitFunctionId> {
    let function_substitution = substitution_of(expected_generics, function.args);
    let generics = generics_outcome(
        db,
        function_substitution,
        of,
        function.generics,
        expected_generics,
        function.generics.len(),
    );
    if generics.result is Err {
        Outcome { diagnostics: generics.diagnostics, result: Err(DiagnosticAdded) }
    } else {
        match db.spec_substitute_signature(function_substitution, expected) {
            Err(e) => Outcome { diagnostics: generics.diagnostics, result: Err(e) },
            Ok(expected) => {
                let counted = generics.diagnostics + parameter_count_diagnostics(
                    of,
                    function,
                    expected,
                );
                match db.spec_substitute_signature(impl_substitution, expected) {
                    Err(e) => Outcome { diagnostics: counted, result: Err(e) },
                    Ok(expected) => Outcome {
                        diagnostics: counted + signature_diagnostics(
                            db,
                            inference,
                            of,
                            function,
                            expected,
                        ),
                        result: Ok(trait_function_id),
                    },
                }
            },
        }
    }
}

/// The comparison with a trait function.
pub open spec fn trait_function_outcome(
    db: SemanticGroup,
    inference: Inference,
    function: FunctionToValidate,
    impl_substitution: SubstitutionView,
    concrete_trait: ConcreteTraitId,
    trait_function_id: TraitFunctionId,
) -> Outcome<TraitFunctionId> {
    let of = Implementation {
        impl_def_id: function.impl_function_id.impl_def_id,
        impl_function_id: function.impl_function_id,
        trait_id: db.spec_trait_long(concrete_trait).trait_id,
    };
    let id = ConcreteTraitGenericFunctionId { concrete_trait, trait_function_id };
    match (db.spec_trait_function_signature(id), db.spec_trait_function_params(id)) {
        (Ok(expected), Ok(generics)) => if function.generics.len() != generics.len() {
            Outcome {
                diagnostics: seq![
                    diagnostic(
                        function.syntax.name_ptr,
                        SemanticDiagnosticKind::WrongNumberOfGenericParamsForImplFunction {
                            expected: generics.len() as usize,
                            actual: function.generics.len() as usize,
                        },
                    ),
                ],
                result: Ok(trait_function_id),
            }
        } else {
            match db.spec_substitute_params(impl_substitution, generics) {
                Ok(generics) => matched_outcome(
                    db,
                    inference,
                    of,
                    function,
                    impl_substitution,
                    generics,
                    expected,
                    trait_function_id,
                ),
                Err(e) => Outcome { diagnostics: seq![], result: Err(e) },
            }
        },
        _ => Outcome { diagnostics: seq![], result: Err(DiagnosticAdded) },
    }
}

/// The trait function that a function of an impl implements, and what is wrong with its
/// signature.
pub open spec fn validation_outcome(
    db: SemanticGroup,
    inference: Inference,
    function: FunctionToValidate,
    impl_substitution: SubstitutionView,
) -> Outcome<TraitFunctionId> {
    let impl_def_id = function.impl_function_id.impl_def_id;
    let name = function.impl_function_id.name;
    match db.spec_impl_def_concrete_trait(impl_def_id) {
        Err(e) => Outcome { diagnostics: seq![], result: Err(e) },
        Ok(concrete_trait) => {
            let trait_id = db.spec_trait_long(concrete_trait).trait_id;
            match db.spec_trait_function_by_name(trait_id, name) {
                Err(e) => Outcome { diagnostics: seq![], result: Err(e) },
                Ok(None) => Outcome {
                    diagnostics: seq![
                        diagnostic(
                            function.syntax.stable_ptr,
                            SemanticDiagnosticKind::ImplItemNotInTrait {
                                impl_def_id,
                                impl_item_name: name,
                                trait_id,
                                item_kind: ItemKind::Function,
                            },
                        ),
                    ],
                    result: Err(DiagnosticAdded),
                },
                Ok(Some(trait_function_id)) => trait_function_outcome(
                    db,
                    inference,
                    function,
                    impl_substitution,
                    concrete_trait,
                    trait_function_id,
                ),
            }
        },
    }
}

/// Compares the parameters and the rest of a signature with that of the trait function.
fn check_signature(
    db: &SemanticGroup,
    diagnostics: &mut SemanticDiagnostics,
    inference: &Inference,
    of: Implementation,
    function: &ValidateImplFunctionSignatureParams<'_>,
    expected: &Signature,
)
    requires
        db.wf(),
        inference.valid(db.sizes()),
        db.sizes().has_signature(function.signature@),
        db.sizes().has_signature(expected@),
    ensures
        final(diagnostics)@ == old(diagnostics)@ + signature_diagnostics(
            *db,
            *inference,
            of,
            function@,
            expected@,
        ),
{
    let ghost before = diagnostics@;
    let signature = function.signature;
    let syntax = function.impl_function_syntax;
    let mut i: usize = 0;
    assert(before + Seq::<DiagnosticView>::empty() =~= before);
    while i < signature.params.len() && i < expected.params.len()
        invariant
            db.wf(),
            inference.valid(db.sizes()),
            db.sizes().has_parameters(signature.params@),
            db.sizes().has_parameters(expected.params@),
            i <= shorter(signature.params@.len(), expected.params@.len()),
            diagnostics@ == before + parameters_diagnostics(
                *db,
                *inference,
                of,
                signature.params@,
                expected.params@,
                i as nat,
            ),
        decreases signature.params.len() - i,
    {
        let ghost so_far = parameters_diagnostics(
            *db,
            *inference,
            of,
            signature.params@,
            expected.params@,
            i as nat,
        );
        let param = signature.params[i];
        let trait_param = expected.params[i];
        assert(db.has_type(signature.params@[i as int].ty));
        assert(db.has_type(expected.params@[i as int].ty));
        check_parameter(db, diagnostics, inference, of, param, trait_param);
        assert((before + so_far) + parameter_diagnostics(*db, *inference, of, param, trait_param)
            =~= before + (so_far + parameter_diagnostics(*db, *inference, of, param, trait_param)));
        i += 1;
    }
    if !expected.panicable && signature.panicable {
        diagnostics.report(
            syntax.signature_ptr,
            SemanticDiagnosticKind::PassPanicAsNopanic {
                impl_function_id: of.impl_function_id,
                trait_id: of.trait_id,
            },
        );
    }
    if expected.is_const && !signature.is_const {
        diagnostics.report(
            syntax.signature_ptr,
            SemanticDiagnosticKind::PassConstAsNonConst {
                impl_function_id: of.impl_function_id,
                trait_id: of.trait_id,
            },
        );
    }
    proof {
        inference.lemma_rewrite_valid(db.sizes());
    }
    let expected_ty = inference.rewrite_type(expected.return_type);
    let actual_ty = inference.rewrite_type(signature.return_type);
    if check_types_differ(db, expected_ty, actual_ty) {
        let location_ptr = match syntax.ret_ty_ptr {
            Some(ptr) => ptr,
            None => syntax.lbrace_ptr,
        };
        diagnostics.report(
            location_ptr,
            SemanticDiagnosticKind::WrongReturnTypeForImpl {
                impl_def_id: of.impl_def_id,
                impl_function_id: of.impl_function_id,
                trait_id: of.trait_id,
                expected_ty,
                actual_ty,
            },
        );
    }
    assert(diagnostics@ =~= before + signature_diagnostics(
        *db,
        *inference,
        of,
        function@,
        expected@,
    ));
}

/// Validates the impl function, and returns the matching trait function id.
pub fn validate_impl_function_signature(
    db: &SemanticGroup,
    diagnostics: &mut SemanticDiagnostics,
    inference: &Inference,
    function: ValidateImplFunctionSignatureParams<'_>,
    impl_def_substitution: &GenericSubstitution,
) -> (res: Maybe<TraitFunctionId>)
    requires
        db.wf(),
        inference.valid(db.sizes()),
        db.sizes().has_signature(function.signature@),
    ensures
        ({
            let outcome = validation_outcome(
                *db,
                *inference,
                function@,
                impl_def_substitution@,
            );
            res == outcome.result && final(diagnostics)@ == old(diagnostics)@ + outcome.diagnostics
        }),
{
    let ghost before = diagnostics@;
    let ghost outcome = validation_outcome(*db, *inference, function@, impl_def_substitution@);
    assert(before + Seq::<DiagnosticView>::empty() =~= before);
    let impl_function_id = function.impl_function_id;
    let impl_def_id = impl_function_id.impl_def_id;
    let syntax = function.impl_function_syntax;
    let concrete_trait = match impl_def_concrete_trait(db, impl_def_id) {
        Ok(concrete_trait) => concrete_trait,
        Err(e) => return Err(e),
    };
    let trait_id = db.trait_long(concrete_trait).trait_id;
    let function_name = impl_function_id.name;
    let trait_function_id = match db.trait_function_by_name(trait_id, function_name) {
        Ok(Some(trait_function_id)) => trait_function_id,
        Ok(None) => {
            let added = diagnostics.report(
                syntax.stable_ptr,
                SemanticDiagnosticKind::ImplItemNotInTrait {
                    impl_def_id,
                    impl_item_name: function_name,
                    trait_id,
                    item_kind: ItemKind::Function,
                },
            );
            assert(diagnostics@ =~= before + outcome.diagnostics);
            return Err(added);
        },
        Err(e) => return Err(e),
    };
    let id = ConcreteTraitGenericFunctionId { concrete_trait, trait_function_id };
    let trait_signature = match db.concrete_trait_function_signature(id) {
        Ok(signature) => signature,
        Err(e) => return Err(e),
    };

    // Match generics of the function.
    let func_generics = match db.concrete_trait_function_generic_params(id) {
        Ok(generics) => generics,
        Err(e) => return Err(e),
    };
    if function.impl_func_generics.len() != func_generics.len() {
        diagnostics.report(
            syntax.name_ptr,
            SemanticDiagnosticKind::WrongNumberOfGenericParamsForImplFunction {
                expected: func_generics.len(),
                actual: function.impl_func_generics.len(),
            },
        );
        assert(diagnostics@ =~= before + outcome.diagnostics);
        return Ok(trait_function_id);
    }
    let func_generics = match db.substitute_params(impl_def_substitution, func_generics) {
        Ok(generics) => generics,
        Err(e) => return Err(e),
    };
    let function_substitution = GenericSubstitution::new(&func_generics, function.impl_func_args);
    let of = Implementation { impl_def_id, impl_function_id, trait_id };
    if let Err(e) = check_generic_params(
        db,
        diagnostics,
        &function_substitution,
        of,
        function.impl_func_generics,
        &func_generics,
    ) {
        return Err(e);
    }
    let ghost generics = diagnostics@;
    let trait_signature = match db.substitute_signature(&function_substitution, trait_signature) {
        Ok(signature) => signature,
        Err(e) => return Err(e),
    };
    if function.signature.params.len() != trait_signature.params.len() {
        diagnostics.report(
            syntax.parameters_ptr,
            SemanticDiagnosticKind::WrongNumberOfParameters {
                impl_def_id,
                impl_function_id,
                trait_id,
                expected: trait_signature.params.len(),
                actual: function.signature.params.len(),
            },
        );
    }
    assert(diagnostics@ =~= generics + parameter_count_diagnostics(
        of,
        function@,
        trait_signature@,
    ));
    let ghost counted = diagnostics@;
    let trait_signature = match db.substitute_signature(impl_def_substitution, &trait_signature) {
        Ok(signature) => signature,
        Err(e) => {
            assert(diagnostics@ =~= before + outcome.diagnostics);
            return Err(e);
        },
    };
    check_signature(db, diagnostics, inference, of, &function, &trait_signature);
    assert(diagnostics@ =~= before + outcome.diagnostics);
    Ok(trait_function_id)
}

// --- Growth ---

/// A substituted signature mentions interned types, where the signature does.
proof fn lemma_substituted_signature_valid(
    db: SemanticGroup,
    s: SubstitutionView,
    signature: SignatureView,
)
    requires
        db.wf(),
        db.sizes().has_signature(signature),
    ensures
        db.spec_substitute_signature(s, signature) matches Ok(r) ==> db.sizes().has_signature(r),
{
    reveal(crate::db::SemanticFacts::valid);
    if let Ok(r) = db.spec_substitute_signature(s, signature) {
        assert forall|i: int| 0 <= i < r.params.len() implies db.has_type(
            (#[trigger] r.params[i]).ty,
        ) by {
            assert(db.spec_substitute_type(s, signature.params[i].ty) is Ok);
        }
        assert forall|i: int| 0 <= i < r.implicits.len() implies db.has_type(
            #[trigger] r.implicits[i],
        ) by {
            assert(db.spec_substitute_type(s, signature.implicits[i]) is Ok);
        }
    }
}

proof fn lemma_substituted_signature_grown(
    before: SemanticGroup,
    after: SemanticGroup,
    s: SubstitutionView,
    signature: SignatureView,
)
    requires
        after.facts == before.facts,
    ensures
        after.spec_substitute_signature(s, signature) == before.spec_substitute_signature(
            s,
            signature,
        ),
{
    assert forall|t: TypeId| #[trigger]
        after.spec_substitute_type(s, t) == before.spec_substitute_type(s, t) by {}
    let a = after.spec_substitute_parameters(s, signature.params);
    let b = before.spec_substitute_parameters(s, signature.params);
    if a is Ok && b is Ok {
        assert(a->Ok_0 =~= b->Ok_0);
    }
    if a is Ok && b is Err {
        let i = choose|i: int|
            0 <= i < signature.params.len() && !(before.spec_substitute_type(
                s,
                (#[trigger] signature.params[i]).ty,
            ) is Ok);
        assert(after.spec_substitute_type(s, signature.params[i].ty) is Ok);
    }
    if a is Err && b is Ok {
        let i = choose|i: int|
            0 <= i < signature.params.len() && !(after.spec_substitute_type(
                s,
                (#[trigger] signature.params[i]).ty,
            ) is Ok);
        assert(before.spec_substitute_type(s, signature.params[i].ty) is Ok);
    }
    let c = after.spec_substitute_types(s, signature.implicits);
    let d = before.spec_substitute_types(s, signature.implicits);
    if c is Ok && d is Ok {
        assert(c->Ok_0 =~= d->Ok_0);
    }
    if c is Ok && d is Err {
        let i = choose|i: int|
            0 <= i < signature.implicits.len() && !(before.spec_substitute_type(
                s,
                #[trigger] signature.implicits[i],
            ) is Ok);
        assert(after.spec_substitute_type(s, signature.implicits[i]) is Ok);
    }
    if c is Err && d is Ok {
        let i = choose|i: int|
            0 <= i < signature.implicits.len() && !(after.spec_substitute_type(
                s,
                #[trigger] signature.implicits[i],
            ) is Ok);
        assert(before.spec_substitute_type(s, signature.implicits[i]) is Ok);
    }
}

proof fn lemma_substituted_params_grown(
    before: SemanticGroup,
    after: SemanticGroup,
    s: SubstitutionView,
    params: Seq<GenericParam>,
)
    requires
        after.facts == before.facts,
    ensures
        after.spec_substitute_params(s, params) == before.spec_substitute_params(s, params),
{
    assert forall|p: GenericParam| #[trigger]
        after.spec_substitute_param(s, p) == before.spec_substitute_param(s, p) by {}
    let a = after.spec_substitute_params(s, params);
    let b = before.spec_substitute_params(s, params);
    if a is Ok && b is Ok {
        assert(a->Ok_0 =~= b->Ok_0);
    }
    if a is Ok && b is Err {
        let i = choose|i: int|
            0 <= i < params.len() && !(before.spec_substitute_param(s, #[trigger] params[i])
                is Ok);
        assert(after.spec_substitute_param(s, params[i]) is Ok);
    }
    if a is Err && b is Ok {
        let i = choose|i: int|
            0 <= i < params.len() && !(after.spec_substitute_param(s, #[trigger] params[i]) is Ok);
        assert(before.spec_substitute_param(s, params[i]) is Ok);
    }
}

proof fn lemma_generics_grown(
    before: SemanticGroup,
    after: SemanticGroup,
    s: SubstitutionView,
    of: Implementation,
    actual: Seq<GenericParam>,
    expected: Seq<GenericParam>,
    count: nat,
)
    requires
        after.facts == before.facts,
    ensures
        generics_outcome(after, s, of, actual, expected, count) == generics_outcome(
            before,
            s,
            of,
            actual,
            expected,
            count,
        ),
    decreases count,
{
    if count > 0 {
        lemma_generics_grown(before, after, s, of, actual, expected, (count - 1) as nat);
    }
}

proof fn lemma_types_differ_grown(
    before: SemanticGroup,
    after: SemanticGroup,
    inference: Inference,
    a: TypeId,
    b: TypeId,
)
    requires
        before.wf(),
        after.grown_from(before),
        inference.valid(before.sizes()),
        before.has_type(a),
        before.has_type(b),
    ensures
        types_differ(after, inference.spec_rewrite_type(a), inference.spec_rewrite_type(b))
            == types_differ(before, inference.spec_rewrite_type(a), inference.spec_rewrite_type(b)),
{
    inference.lemma_rewrite_valid(before.sizes());
    let x = inference.spec_rewrite_type(a);
    let y = inference.spec_rewrite_type(b);
    assert(before.has_type(x) && before.has_type(y));
    assert(after.spec_type_long(x) == before.spec_type_long(x));
    assert(after.spec_type_long(y) == before.spec_type_long(y));
}

proof fn lemma_parameters_grown(
    before: SemanticGroup,
    after: SemanticGroup,
    inference: Inference,
    of: Implementation,
    params: Seq<Parameter>,
    trait_params: Seq<Parameter>,
    count: nat,
)
    requires
        before.wf(),
        after.grown_from(before),
        inference.valid(before.sizes()),
        before.sizes().has_parameters(params),
        before.sizes().has_parameters(trait_params),
        count <= shorter(params.len(), trait_params.len()),
    ensures
        parameters_diagnostics(after, inference, of, params, trait_params, count)
            == parameters_diagnostics(before, inference, of, params, trait_params, count),
    decreases count,
{
    if count > 0 {
        lemma_parameters_grown(
            before,
            after,
            inference,
            of,
            params,
            trait_params,
            (count - 1) as nat,
        );
        let i = count - 1;
        lemma_types_differ_grown(before, after, inference, trait_params[i].ty, params[i].ty);
    }
}

/// The comparison with the trait function stays as more values are interned.
pub proof fn lemma_validation_grown(
    before: SemanticGroup,
    after: SemanticGroup,
    inference: Inference,
    function: FunctionToValidate,
    s: SubstitutionView,
)
    requires
        before.wf(),
        after.grown_from(before),
        inference.valid(before.sizes()),
        before.sizes().has_signature(function.signature),
    ensures
        validation_outcome(after, inference, function, s) == validation_outcome(
            before,
            inference,
            function,
            s,
        ),
{
    reveal(crate::db::SemanticFacts::valid);
    let impl_def_id = function.impl_function_id.impl_def_id;
    lemma_definition_grown(before, after, impl_def_id);
    if let Ok(concrete_trait) = before.spec_impl_def_concrete_trait(impl_def_id) {
        let trait_id = before.spec_trait_long(concrete_trait).trait_id;
        if let Ok(Some(trait_function_id)) = before.spec_trait_function_by_name(
            trait_id,
            function.impl_function_id.name,
        ) {
            let id = ConcreteTraitGenericFunctionId { concrete_trait, trait_function_id };
            let of = Implementation {
                impl_def_id,
                impl_function_id: function.impl_function_id,
                trait_id,
            };
            match (
                before.spec_trait_function_signature(id),
                before.spec_trait_function_params(id),
            ) {
                (Ok(expected), Ok(generics)) => {
                    assert(before.sizes().has_signature(expected));
                    lemma_substituted_params_grown(before, after, s, generics);
                    if let Ok(generics) = before.spec_substitute_params(s, generics) {
                        let t = substitution_of(generics, function.args);
                        lemma_generics_grown(
                            before,
                            after,
                            t,
                            of,
                            function.generics,
                            generics,
                            function.generics.len(),
                        );
                        lemma_substituted_signature_grown(before, after, t, expected);
                        lemma_substituted_signature_valid(before, t, expected);
                        if let Ok(expected) = before.spec_substitute_signature(t, expected) {
                            lemma_substituted_signature_grown(before, after, s, expected);
                            lemma_substituted_signature_valid(before, s, expected);
                            if let Ok(expected) = before.spec_substitute_signature(s, expected) {
                                lemma_parameters_grown(
                                    before,
                                    after,
                                    inference,
                                    of,
                                    function.signature.params,
                                    expected.params,
                                    shorter(
                                        function.signature.params.len(),
                                        expected.params.len(),
                                    ),
                                );
                                lemma_types_differ_grown(
                                    before,
                                    after,
                                    inference,
                                    expected.return_type,
                                    function.signature.return_type,
                                );
                            }
                        }
                    }
                },
                _ => {},
            }
        }
    }
}

// --- Laws ---

/// Whether a parameter is as the trait function has it. Missing types match every type, and
/// whether a parameter is mutable inside the body does not matter.
pub open spec fn parameter_matches(
    db: SemanticGroup,
    inference: Inference,
    param: Parameter,
    trait_param: Parameter,
) -> bool {
    &&& !types_differ(
        db,
        inference.spec_rewrite_type(trait_param.ty),
        inference.spec_rewrite_type(param.ty),
    )
    &&& param.mutability == Mutability::Reference <==> trait_param.mutability
        == Mutability::Reference
    &&& param.name == trait_param.name
}

proof fn lemma_parameters_match(
    db: SemanticGroup,
    inference: Inference,
    of: Implementation,
    params: Seq<Parameter>,
    trait_params: Seq<Parameter>,
    count: nat,
)
    requires
        count <= shorter(params.len(), trait_params.len()),
    ensures
        parameters_diagnostics(db, inference, of, params, trait_params, count).len() == 0
            <==> forall|i: int|
            0 <= i < count ==> parameter_matches(
                db,
                inference,
                #[trigger] params[i],
                trait_params[i],
            ),
    decreases count,
{
    if count > 0 {
        lemma_parameters_match(db, inference, of, params, trait_params, (count - 1) as nat);
        let own = parameter_diagnostics(
            db,
            inference,
            of,
            params[count - 1],
            trait_params[count - 1],
        );
        assert(own.len() == 0 <==> parameter_matches(
            db,
            inference,
            params[count - 1],
            trait_params[count - 1],
        ));
    }
}

/// What is reported of the rest of a signature, next to its parameters.
proof fn lemma_signature_parts(
    db: SemanticGroup,
    inference: Inference,
    of: Implementation,
    function: FunctionToValidate,
    expected: SignatureView,
)
    ensures
        signature_diagnostics(db, inference, of, function, expected).len()
            == parameters_diagnostics(
            db,
            inference,
            of,
            function.signature.params,
            expected.params,
            shorter(function.signature.params.len(), expected.params.len()),
        ).len() + (if !expected.panicable && function.signature.panicable {
            1int
        } else {
            0
        }) + (if expected.is_const && !function.signature.is_const {
            1int
        } else {
            0
        }) + (if types_differ(
            db,
            inference.spec_rewrite_type(expected.return_type),
            inference.spec_rewrite_type(function.signature.return_type),
        ) {
            1int
        } else {
            0
        }),
{
}

/// Nothing is reported of a signature exactly where it has as many parameters as that of the
/// trait function, every parameter is as there, the function panics and is non-const only where
/// the trait allows it, and the return types do not differ.
pub proof fn law_signature_accepted_iff_it_matches(
    db: SemanticGroup,
    inference: Inference,
    of: Implementation,
    function: FunctionToValidate,
    expected: SignatureView,
)
    ensures
        (parameter_count_diagnostics(of, function, expected) + signature_diagnostics(
            db,
            inference,
            of,
            function,
            expected,
        )).len() == 0 <==> {
            &&& function.signature.params.len() == expected.params.len()
            &&& forall|i: int|
                0 <= i < function.signature.params.len() && i < expected.params.len()
                    ==> parameter_matches(
                    db,
                    inference,
                    #[trigger] function.signature.params[i],
                    expected.params[i],
                )
            &&& function.signature.panicable ==> expected.panicable
            &&& expected.is_const ==> function.signature.is_const
            &&& !types_differ(
                db,
                inference.spec_rewrite_type(expected.return_type),
                inference.spec_rewrite_type(function.signature.return_type),
            )
        },
{
    let count = shorter(function.signature.params.len(), expected.params.len());
    lemma_signature_parts(db, inference, of, function, expected);
    lemma_parameters_match(db, inference, of, function.signature.params, expected.params, count);
    assert(parameter_count_diagnostics(of, function, expected).len() == 0
        <==> function.signature.params.len() == expected.params.len());
}

/// The generic parameters are accepted exactly where each of them is.
pub proof fn law_generics_accepted_iff_each_is(
    db: SemanticGroup,
    s: SubstitutionView,
    of: Implementation,
    actual: Seq<GenericParam>,
    expected: Seq<GenericParam>,
    count: nat,
)
    requires
        count <= actual.len(),
        count <= expected.len(),
    ensures
        ({
            let all = generics_outcome(db, s, of, actual, expected, count);
            all.result is Ok && all.diagnostics.len() == 0 <==> forall|i: int|
                0 <= i < count ==> {
                    let one = generic_outcome(db, s, of, #[trigger] actual[i], expected[i]);
                    one.result is Ok && one.diagnostics.len() == 0
                }
        }),
    decreases count,
{
    if count > 0 {
        law_generics_accepted_iff_each_is(db, s, of, actual, expected, (count - 1) as nat);
        let last = actual[count - 1];
    }
}

/// The type that a type is settled as: the recorded one, or the type itself.
pub open spec fn settled_type(inference: Inference, ty: TypeId) -> TypeId {
    if has_key(inference.types@, ty) {
        lookup(inference.types@, ty)->0
    } else {
        ty
    }
}

/// Whether a type of a trait function, seen from the impl, is the type that the impl function has
/// in its place: the same type, unless one of the two is missing. What the trait function has is
/// seen with the arguments of the function, and then those of the impl, put in.
pub open spec fn same_type_seen(
    db: SemanticGroup,
    inference: Inference,
    function_s: SubstitutionView,
    impl_s: SubstitutionView,
    expected: TypeId,
    actual: TypeId,
) -> bool {
    made_by_both(db.facts.substituted_types@, function_s, impl_s, expected) matches Ok(seen) && {
        let e = settled_type(inference, seen);
        let a = settled_type(inference, actual);
        ||| e == a
        ||| db.interned@.types[e.0 as int] is Missing
        ||| db.interned@.types[a.0 as int] is Missing
    }
}

/// Whether a parameter is the one that the trait function has in its place: of the same type, with
/// the same name, and passed by reference where that is.
pub open spec fn same_parameter_seen(
    db: SemanticGroup,
    inference: Inference,
    function_s: SubstitutionView,
    impl_s: SubstitutionView,
    expected: Parameter,
    actual: Parameter,
) -> bool {
    &&& same_type_seen(db, inference, function_s, impl_s, expected.ty, actual.ty)
    &&& (expected.mutability is Reference) == (actual.mutability is Reference)
    &&& expected.name == actual.name
}

/// Whether an impl parameter asks for the trait, and the constraints, that the trait function asks
/// for; where one of the traits is not resolved there is nothing to compare.
pub open spec fn same_bound_seen(
    db: SemanticGroup,
    function_s: SubstitutionView,
    impl_s: SubstitutionView,
    expected: GenericParamImpl,
    actual: GenericParamImpl,
) -> bool {
    match (expected.concrete_trait, actual.concrete_trait) {
        (Ok(e), Ok(a)) => {
            &&& made_by_both(db.facts.substituted_traits@, impl_s, function_s, e) == Ok::<
                _,
                DiagnosticAdded,
            >(a)
            &&& made_by_both(
                db.facts.substituted_constraints@,
                impl_s,
                function_s,
                expected.type_constraints,
            ) == Ok::<_, DiagnosticAdded>(actual.type_constraints)
        },
        _ => true,
    }
}

/// Whether a generic parameter is the one that the trait function has in its place: of its kind,
/// with its name, where that has one, and with what it asks for.
pub open spec fn same_generic_seen(
    db: SemanticGroup,
    function_s: SubstitutionView,
    impl_s: SubstitutionView,
    expected: GenericParam,
    actual: GenericParam,
) -> bool {
    match (expected, actual) {
        (GenericParam::Type(e), GenericParam::Type(a)) => e.id.name is None || e.id.name
            == a.id.name,
        (GenericParam::Const(e), GenericParam::Const(a)) => {
            &&& e.id.name is None || e.id.name == a.id.name
            &&& made_by_both(db.facts.substituted_types@, impl_s, function_s, e.ty) == Ok::<
                _,
                DiagnosticAdded,
            >(a.ty)
        },
        (GenericParam::Impl(e), GenericParam::Impl(a)) => {
            &&& e.id.name is None || e.id.name == a.id.name
            &&& same_bound_seen(db, function_s, impl_s, e, a)
        },
        (GenericParam::NegImpl(e), GenericParam::NegImpl(a)) => {
            &&& e.id.name is None || e.id.name == a.id.name
            &&& same_bound_seen(db, function_s, impl_s, e, a)
        },
        _ => false,
    }
}

/// Whether what is recorded leads from a function of an impl to a trait function: the impl is one
/// of the trait, and the trait has the function under the same name, with these generic parameters
/// and this signature.
pub open spec fn implements_recorded(
    db: SemanticGroup,
    function: FunctionToValidate,
    concrete_trait: ConcreteTraitId,
    trait_function_id: TraitFunctionId,
    generics: Seq<GenericParam>,
    signature: SignatureView,
) -> bool {
    let id = ConcreteTraitGenericFunctionId { concrete_trait, trait_function_id };
    &&& db.spec_impl_def_concrete_trait(function.impl_function_id.impl_def_id) == Ok::<
        _,
        DiagnosticAdded,
    >(concrete_trait)
    &&& lookup(
        db.facts.traits@,
        db.interned@.concrete_traits[concrete_trait.0 as int].trait_id,
    ) matches Some(f) && (f.functions matches Ok(items) && lookup(
        items@,
        function.impl_function_id.name,
    ) == Some(trait_function_id))
    &&& lookup(db.facts.trait_function_params@, id) matches Some(Ok(p)) && p@ == generics
    &&& lookup(db.facts.trait_function_signatures@, id) matches Some(Ok(s)) && s@ == signature
}

/// The ids of generic parameters stay where what they mention is substituted.
proof fn lemma_substituted_params_keep_ids(
    db: SemanticGroup,
    s: SubstitutionView,
    params: Seq<GenericParam>,
    args: Seq<GenericArgumentId>,
)
    ensures
        db.spec_substitute_params(s, params) matches Ok(r) ==> r.len() == params.len()
            && substitution_of(r, args) == substitution_of(params, args) && forall|i: int|
            0 <= i < params.len() ==> db.spec_substitute_param(s, #[trigger] params[i]) == Ok::<
                _,
                DiagnosticAdded,
            >(r[i]),
{
    if let Ok(r) = db.spec_substitute_params(s, params) {
        assert forall|i: int| 0 <= i < params.len() implies db.spec_substitute_param(
            s,
            #[trigger] params[i],
        ) == Ok::<_, DiagnosticAdded>(r[i]) && r[i].spec_id() == params[i].spec_id() by {
            assert(db.spec_substitute_param(s, params[i]) is Ok);
        }
        assert(crate::substitution::param_arg_pairs(r, args)
            =~= crate::substitution::param_arg_pairs(params, args));
    }
}

/// A generic parameter that can be compared is accepted exactly where it is the one that the trait
/// function has.
proof fn lemma_generic_accepted(
    db: SemanticGroup,
    function_s: SubstitutionView,
    impl_s: SubstitutionView,
    of: Implementation,
    expected: GenericParam,
    substituted: GenericParam,
    actual: GenericParam,
)
    requires
        db.spec_substitute_param(impl_s, expected) == Ok::<_, DiagnosticAdded>(substituted),
        generic_outcome(db, function_s, of, actual, substituted).result is Ok,
    ensures
        generic_outcome(db, function_s, of, actual, substituted).diagnostics.len() == 0
            <==> same_generic_seen(db, function_s, impl_s, expected, actual),
{
}

/// What substituting a signature twice makes of its parameters and its return type.
proof fn lemma_signature_seen(
    db: SemanticGroup,
    function_s: SubstitutionView,
    impl_s: SubstitutionView,
    signature: SignatureView,
    once: SignatureView,
    twice: SignatureView,
)
    requires
        db.spec_substitute_signature(function_s, signature) == Ok::<_, DiagnosticAdded>(once),
        db.spec_substitute_signature(impl_s, once) == Ok::<_, DiagnosticAdded>(twice),
    ensures
        once.params.len() == signature.params.len(),
        twice.params.len() == signature.params.len(),
        twice.panicable == signature.panicable,
        twice.is_const == signature.is_const,
        made_by_both(db.facts.substituted_types@, function_s, impl_s, signature.return_type)
            == Ok::<_, DiagnosticAdded>(twice.return_type),
        forall|i: int|
            0 <= i < signature.params.len() ==> {
                let p = #[trigger] signature.params[i];
                &&& made_by_both(db.facts.substituted_types@, function_s, impl_s, p.ty) == Ok::<
                    _,
                    DiagnosticAdded,
                >(twice.params[i].ty)
                &&& twice.params[i].name == p.name
                &&& twice.params[i].mutability == p.mutability
            },
{
    assert forall|i: int| 0 <= i < signature.params.len() implies {
        let p = #[trigger] signature.params[i];
        &&& made_by_both(db.facts.substituted_types@, function_s, impl_s, p.ty) == Ok::<
            _,
            DiagnosticAdded,
        >(twice.params[i].ty)
        &&& twice.params[i].name == p.name
        &&& twice.params[i].mutability == p.mutability
    } by {
        assert(db.spec_substitute_type(function_s, signature.params[i].ty) is Ok);
        assert(db.spec_substitute_type(impl_s, once.params[i].ty) is Ok);
    }
}

/// A function of an impl is accepted exactly where it has the signature of the trait function:
/// the same generic parameters, as many parameters, each of the same type and name and passed by
/// reference as there, the same return type, and it panics, and is not constant, only where the
/// trait function may be so. Two types are the same where they are one type, or one is missing.
pub proof fn law_accepted_functions_have_the_signature_of_the_trait(
    db: SemanticGroup,
    inference: Inference,
    function: FunctionToValidate,
    impl_s: SubstitutionView,
    concrete_trait: ConcreteTraitId,
    trait_function_id: TraitFunctionId,
    generics: Seq<GenericParam>,
    signature: SignatureView,
)
    requires
        implements_recorded(
            db,
            function,
            concrete_trait,
            trait_function_id,
            generics,
            signature,
        ),
        validation_outcome(db, inference, function, impl_s).result is Ok,
    ensures
        validation_outcome(db, inference, function, impl_s).result == Ok::<_, DiagnosticAdded>(
            trait_function_id,
        ),
        ({
            let function_s = substitution_of(generics, function.args);
            let actual = function.signature;
            validation_outcome(db, inference, function, impl_s).diagnostics.len() == 0 <==> {
                &&& function.generics.len() == generics.len()
                &&& forall|i: int|
                    0 <= i < generics.len() ==> same_generic_seen(
                        db,
                        function_s,
                        impl_s,
                        #[trigger] generics[i],
                        function.generics[i],
                    )
                &&& actual.params.len() == signature.params.len()
                &&& forall|i: int|
                    0 <= i < signature.params.len() ==> same_parameter_seen(
                        db,
                        inference,
                        function_s,
                        impl_s,
                        #[trigger] signature.params[i],
                        actual.params[i],
                    )
                &&& actual.panicable ==> signature.panicable
                &&& signature.is_const ==> actual.is_const
                &&& same_type_seen(
                    db,
                    inference,
                    function_s,
                    impl_s,
                    signature.return_type,
                    actual.return_type,
                )
            }
        }),
{
    let of = Implementation {
        impl_def_id: function.impl_function_id.impl_def_id,
        impl_function_id: function.impl_function_id,
        trait_id: db.spec_trait_long(concrete_trait).trait_id,
    };
    let outcome = validation_outcome(db, inference, function, impl_s);
    if function.generics.len() == generics.len() {
        lemma_substituted_params_keep_ids(db, impl_s, generics, function.args);
        let expected_generics = db.spec_substitute_params(impl_s, generics)->Ok_0;
        let function_s = substitution_of(generics, function.args);
        let count = function.generics.len();
        let compared = generics_outcome(
            db,
            function_s,
            of,
            function.generics,
            expected_generics,
            count,
        );
        let once = db.spec_substitute_signature(function_s, signature)->Ok_0;
        let twice = db.spec_substitute_signature(impl_s, once)->Ok_0;
        lemma_signature_seen(db, function_s, impl_s, signature, once, twice);
        assert(outcome.diagnostics == compared.diagnostics + parameter_count_diagnostics(
            of,
            function,
            once,
        ) + signature_diagnostics(db, inference, of, function, twice));
        lemma_generics_seen(
            db,
            function_s,
            impl_s,
            of,
            function.generics,
            expected_generics,
            generics,
            count,
        );
        if function.signature.params.len() == signature.params.len() {
            lemma_signature_accepted(
                db,
                inference,
                of,
                function,
                function_s,
                impl_s,
                signature,
                once,
                twice,
            );
        }
        assert(parameter_count_diagnostics(of, function, once).len() == 0
            <==> function.signature.params.len() == signature.params.len());
    }
}

/// Generic parameters that can be compared are accepted exactly where they are those of the trait
/// function.
proof fn lemma_generics_seen(
    db: SemanticGroup,
    function_s: SubstitutionView,
    impl_s: SubstitutionView,
    of: Implementation,
    actual: Seq<GenericParam>,
    substituted: Seq<GenericParam>,
    generics: Seq<GenericParam>,
    count: nat,
)
    requires
        count <= generics.len(),
        actual.len() == generics.len(),
        substituted.len() == generics.len(),
        forall|i: int|
            0 <= i < generics.len() ==> db.spec_substitute_param(impl_s, #[trigger] generics[i])
                == Ok::<_, DiagnosticAdded>(substituted[i]),
        generics_outcome(db, function_s, of, actual, substituted, count).result is Ok,
    ensures
        generics_outcome(db, function_s, of, actual, substituted, count).diagnostics.len() == 0
            <==> forall|i: int|
            0 <= i < count ==> same_generic_seen(
                db,
                function_s,
                impl_s,
                #[trigger] generics[i],
                actual[i],
            ),
    decreases count,
{
    if count > 0 {
        let last = count - 1;
        lemma_generics_seen(
            db,
            function_s,
            impl_s,
            of,
            actual,
            substituted,
            generics,
            last as nat,
        );
        lemma_generic_accepted(
            db,
            function_s,
            impl_s,
            of,
            generics[last],
            substituted[last],
            actual[last],
        );
    }
}

/// The parameters and the rest of a signature are accepted exactly where they are those of the
/// trait function.
proof fn lemma_signature_accepted(
    db: SemanticGroup,
    inference: Inference,
    of: Implementation,
    function: FunctionToValidate,
    function_s: SubstitutionView,
    impl_s: SubstitutionView,
    signature: SignatureView,
    once: SignatureView,
    twice: SignatureView,
)
    requires
        db.spec_substitute_signature(function_s, signature) == Ok::<_, DiagnosticAdded>(once),
        db.spec_substitute_signature(impl_s, once) == Ok::<_, DiagnosticAdded>(twice),
        function.signature.params.len() == signature.params.len(),
    ensures
        signature_diagnostics(db, inference, of, function, twice).len() == 0 <==> {
            &&& forall|i: int|
                0 <= i < signature.params.len() ==> same_parameter_seen(
                    db,
                    inference,
                    function_s,
                    impl_s,
                    #[trigger] signature.params[i],
                    function.signature.params[i],
                )
            &&& function.signature.panicable ==> signature.panicable
            &&& signature.is_const ==> function.signature.is_const
            &&& same_type_seen(
                db,
                inference,
                function_s,
                impl_s,
                signature.return_type,
                function.signature.return_type,
            )
        },
{
    lemma_signature_seen(db, function_s, impl_s, signature, once, twice);
    let count = signature.params.len();
    lemma_signature_parts(db, inference, of, function, twice);
    lemma_parameters_match(db, inference, of, function.signature.params, twice.params, count);
    let params = function.signature.params;
    assert forall|i: int| 0 <= i < count implies parameter_matches(
        db,
        inference,
        #[trigger] params[i],
        twice.params[i],
    ) == same_parameter_seen(
        db,
        inference,
        function_s,
        impl_s,
        signature.params[i],
        params[i],
    ) by {
        assert(made_by_both(
            db.facts.substituted_types@,
            function_s,
            impl_s,
            signature.params[i].ty,
        ) is Ok);
    }
    if parameters_diagnostics(db, inference, of, params, twice.params, count).len() == 0 {
        assert forall|i: int| 0 <= i < count implies same_parameter_seen(
            db,
            inference,
            function_s,
            impl_s,
            #[trigger] signature.params[i],
            params[i],
        ) by {
            assert(parameter_matches(db, inference, params[i], twice.params[i]));
        }
    }
    if forall|i: int|
        0 <= i < count ==> same_parameter_seen(
            db,
            inference,
            function_s,
            impl_s,
            #[trigger] signature.params[i],
            params[i],
        ) {
        assert forall|i: int| 0 <= i < count implies parameter_matches(
            db,
            inference,
            #[trigger] params[i],
            twice.params[i],
        ) by {
            assert(same_parameter_seen(
                db,
                inference,
                function_s,
                impl_s,
                signature.params[i],
                params[i],
            ));
        }
    }
}

/// Each difference between the signature of a function of an impl and that of the trait function is
/// reported, where it is: a type at the type, with both types; how a parameter is passed at its
/// modifiers; a name at the name; a wrong return type at the return type, or where there is none
/// before the body.
pub proof fn law_signature_differences_are_reported(
    db: SemanticGroup,
    inference: Inference,
    function: FunctionToValidate,
    impl_s: SubstitutionView,
    concrete_trait: ConcreteTraitId,
    trait_function_id: TraitFunctionId,
    generics: Seq<GenericParam>,
    signature: SignatureView,
    i: int,
)
    requires
        implements_recorded(
            db,
            function,
            concrete_trait,
            trait_function_id,
            generics,
            signature,
        ),
        validation_outcome(db, inference, function, impl_s).result is Ok,
        function.generics.len() == generics.len(),
    ensures
        ({
            let found = validation_outcome(db, inference, function, impl_s).diagnostics;
            let function_s = substitution_of(generics, function.args);
            let impl_function_id = function.impl_function_id;
            let impl_def_id = impl_function_id.impl_def_id;
            let trait_id = db.interned@.concrete_traits[concrete_trait.0 as int].trait_id;
            let given = function.signature;
            let seen = |ty: TypeId|
                settled_type(
                    inference,
                    made_by_both(db.facts.substituted_types@, function_s, impl_s, ty)->Ok_0,
                );
            &&& given.params.len() != signature.params.len() ==> found.contains(
                SemanticDiagnostic {
                    stable_ptr: function.syntax.parameters_ptr,
                    kind: SemanticDiagnosticKind::WrongNumberOfParameters {
                        impl_def_id,
                        impl_function_id,
                        trait_id,
                        expected: signature.params.len() as usize,
                        actual: given.params.len() as usize,
                    },
                },
            )
            &&& given.panicable && !signature.panicable ==> found.contains(
                SemanticDiagnostic {
                    stable_ptr: function.syntax.signature_ptr,
                    kind: SemanticDiagnosticKind::PassPanicAsNopanic { impl_function_id, trait_id },
                },
            )
            &&& signature.is_const && !given.is_const ==> found.contains(
                SemanticDiagnostic {
                    stable_ptr: function.syntax.signature_ptr,
                    kind: SemanticDiagnosticKind::PassConstAsNonConst { impl_function_id, trait_id },
                },
            )
            &&& !same_type_seen(
                db,
                inference,
                function_s,
                impl_s,
                signature.return_type,
                given.return_type,
            ) ==> found.contains(
                SemanticDiagnostic {
                    stable_ptr: match function.syntax.ret_ty_ptr {
                        Some(ptr) => ptr,
                        None => function.syntax.lbrace_ptr,
                    },
                    kind: SemanticDiagnosticKind::WrongReturnTypeForImpl {
                        impl_def_id,
                        impl_function_id,
                        trait_id,
                        expected_ty: seen(signature.return_type),
                        actual_ty: settled_type(inference, given.return_type),
                    },
                },
            )
            &&& 0 <= i < given.params.len() && i < signature.params.len() ==> {
                let expected = signature.params[i];
                let actual = given.params[i];
                &&& !same_type_seen(
                    db,
                    inference,
                    function_s,
                    impl_s,
                    expected.ty,
                    actual.ty,
                ) ==> found.contains(
                    SemanticDiagnostic {
                        stable_ptr: actual.type_ptr,
                        kind: SemanticDiagnosticKind::WrongParameterType {
                            impl_def_id,
                            impl_function_id,
                            trait_id,
                            expected_ty: seen(expected.ty),
                            actual_ty: settled_type(inference, actual.ty),
                        },
                    },
                )
                &&& expected.mutability is Reference && !(actual.mutability is Reference)
                    ==> found.contains(
                    SemanticDiagnostic {
                        stable_ptr: actual.modifiers_ptr,
                        kind: SemanticDiagnosticKind::ParameterShouldBeReference {
                            impl_def_id,
                            impl_function_id,
                            trait_id,
                        },
                    },
                )
                &&& !(expected.mutability is Reference) && actual.mutability is Reference
                    ==> found.contains(
                    SemanticDiagnostic {
                        stable_ptr: actual.modifiers_ptr,
                        kind: SemanticDiagnosticKind::ParameterShouldNotBeReference {
                            impl_def_id,
                            impl_function_id,
                            trait_id,
                        },
                    },
                )
                &&& expected.name != actual.name ==> found.contains(
                    SemanticDiagnostic {
                        stable_ptr: actual.name_ptr,
                        kind: SemanticDiagnosticKind::WrongParameterName {
                            impl_def_id,
                            impl_function_id,
                            trait_id,
                            expected_name: expected.name,
                        },
                    },
                )
            }
        }),
{
    let of = Implementation {
        impl_def_id: function.impl_function_id.impl_def_id,
        impl_function_id: function.impl_function_id,
        trait_id: db.spec_trait_long(concrete_trait).trait_id,
    };
    let outcome = validation_outcome(db, inference, function, impl_s);
    lemma_substituted_params_keep_ids(db, impl_s, generics, function.args);
    let expected_generics = db.spec_substitute_params(impl_s, generics)->Ok_0;
    let function_s = substitution_of(generics, function.args);
    let compared = generics_outcome(
        db,
        function_s,
        of,
        function.generics,
        expected_generics,
        function.generics.len(),
    );
    let once = db.spec_substitute_signature(function_s, signature)->Ok_0;
    let twice = db.spec_substitute_signature(impl_s, once)->Ok_0;
    lemma_signature_seen(db, function_s, impl_s, signature, once, twice);
    let counted = parameter_count_diagnostics(of, function, once);
    let rest = signature_diagnostics(db, inference, of, function, twice);
    assert(outcome.diagnostics == compared.diagnostics + counted + rest);
    lemma_parts_are_members(db, inference, of, function, twice, i);
    assert forall|d: DiagnosticView| counted.contains(d) || rest.contains(d) implies
        #[trigger] outcome.diagnostics.contains(d) by {
        crate::collections::lemma_concat_members(compared.diagnostics, counted, d);
        crate::collections::lemma_concat_members(compared.diagnostics + counted, rest, d);
    }
    if function.signature.params.len() != signature.params.len() {
        assert(counted.contains(counted[0]));
    }
    if 0 <= i < signature.params.len() && i < function.signature.params.len() {
        assert(made_by_both(
            db.facts.substituted_types@,
            function_s,
            impl_s,
            signature.params[i].ty,
        ) == Ok::<_, DiagnosticAdded>(twice.params[i].ty));
        lemma_parameter_parts(
            db,
            inference,
            of,
            function.signature.params[i],
            twice.params[i],
        );
    }
}

/// The parts that what is reported of a parameter is put together from.
proof fn lemma_parameter_parts(
    db: SemanticGroup,
    inference: Inference,
    of: Implementation,
    param: Parameter,
    trait_param: Parameter,
)
    ensures
        ({
            let found = parameter_diagnostics(db, inference, of, param, trait_param);
            let e = inference.spec_rewrite_type(trait_param.ty);
            let a = inference.spec_rewrite_type(param.ty);
            &&& types_differ(db, e, a) ==> found.contains(
                diagnostic(
                    param.type_ptr,
                    SemanticDiagnosticKind::WrongParameterType {
                        impl_def_id: of.impl_def_id,
                        impl_function_id: of.impl_function_id,
                        trait_id: of.trait_id,
                        expected_ty: e,
                        actual_ty: a,
                    },
                ),
            )
            &&& trait_param.mutability is Reference && !(param.mutability is Reference)
                ==> found.contains(
                diagnostic(
                    param.modifiers_ptr,
                    SemanticDiagnosticKind::ParameterShouldBeReference {
                        impl_def_id: of.impl_def_id,
                        impl_function_id: of.impl_function_id,
                        trait_id: of.trait_id,
                    },
                ),
            )
            &&& !(trait_param.mutability is Reference) && param.mutability is Reference
                ==> found.contains(
                diagnostic(
                    param.modifiers_ptr,
                    SemanticDiagnosticKind::ParameterShouldNotBeReference {
                        impl_def_id: of.impl_def_id,
                        impl_function_id: of.impl_function_id,
                        trait_id: of.trait_id,
                    },
                ),
            )
            &&& trait_param.name != param.name ==> found.contains(
                diagnostic(
                    param.name_ptr,
                    SemanticDiagnosticKind::WrongParameterName {
                        impl_def_id: of.impl_def_id,
                        impl_function_id: of.impl_function_id,
                        trait_id: of.trait_id,
                        expected_name: trait_param.name,
                    },
                ),
            )
        }),
{
    let found = parameter_diagnostics(db, inference, of, param, trait_param);
    let e = inference.spec_rewrite_type(trait_param.ty);
    let a = inference.spec_rewrite_type(param.ty);
    let t = if types_differ(db, e, a) {
        1int
    } else {
        0
    };
    let m = if (trait_param.mutability is Reference) != (param.mutability is Reference) {
        1int
    } else {
        0
    };
    if t == 1 {
        assert(found.contains(found[0]));
    }
    if m == 1 {
        assert(found.contains(found[t]));
    }
    if trait_param.name != param.name {
        assert(found.contains(found[t + m]));
    }
}

/// The parts that what is reported of a signature is put together from.
proof fn lemma_parts_are_members(
    db: SemanticGroup,
    inference: Inference,
    of: Implementation,
    function: FunctionToValidate,
    expected: SignatureView,
    i: int,
)
    ensures
        ({
            let found = signature_diagnostics(db, inference, of, function, expected);
            let given = function.signature;
            let e = inference.spec_rewrite_type(expected.return_type);
            let a = inference.spec_rewrite_type(given.return_type);
            &&& !expected.panicable && given.panicable ==> found.contains(
                diagnostic(
                    function.syntax.signature_ptr,
                    SemanticDiagnosticKind::PassPanicAsNopanic {
                        impl_function_id: of.impl_function_id,
                        trait_id: of.trait_id,
                    },
                ),
            )
            &&& expected.is_const && !given.is_const ==> found.contains(
                diagnostic(
                    function.syntax.signature_ptr,
                    SemanticDiagnosticKind::PassConstAsNonConst {
                        impl_function_id: of.impl_function_id,
                        trait_id: of.trait_id,
                    },
                ),
            )
            &&& types_differ(db, e, a) ==> found.contains(
                diagnostic(
                    return_type_ptr(function.syntax),
                    SemanticDiagnosticKind::WrongReturnTypeForImpl {
                        impl_def_id: of.impl_def_id,
                        impl_function_id: of.impl_function_id,
                        trait_id: of.trait_id,
                        expected_ty: e,
                        actual_ty: a,
                    },
                ),
            )
            &&& 0 <= i < given.params.len() && i < expected.params.len() ==> forall|
                d: DiagnosticView,
            |
                parameter_diagnostics(db, inference, of, given.params[i], expected.params[i]).contains(
                    d,
                ) ==> #[trigger] found.contains(d)
        }),
{
    let found = signature_diagnostics(db, inference, of, function, expected);
    let given = function.signature;
    let count = shorter(given.params.len(), expected.params.len());
    let params = parameters_diagnostics(db, inference, of, given.params, expected.params, count);
    let p = if !expected.panicable && given.panicable {
        1int
    } else {
        0
    };
    let c = if expected.is_const && !given.is_const {
        1int
    } else {
        0
    };
    if p == 1 {
        assert(found[params.len() as int].kind is PassPanicAsNopanic);
        assert(found.contains(found[params.len() as int]));
    }
    if c == 1 {
        assert(found.contains(found[params.len() + p]));
    }
    if types_differ(
        db,
        inference.spec_rewrite_type(expected.return_type),
        inference.spec_rewrite_type(given.return_type),
    ) {
        assert(found.contains(found[params.len() + p + c]));
    }
    if 0 <= i < given.params.len() && i < expected.params.len() {
        lemma_parameter_is_part(db, inference, of, given.params, expected.params, count, i);
        assert forall|d: DiagnosticView|
            parameter_diagnostics(
                db,
                inference,
                of,
                given.params[i],
                expected.params[i],
            ).contains(d) implies #[trigger] found.contains(d) by {
            let k = choose|k: int| 0 <= k < params.len() && params[k] == d;
            assert(params.contains(d));
            assert(found[k] == d);
        }
    }
}

proof fn lemma_parameter_is_part(
    db: SemanticGroup,
    inference: Inference,
    of: Implementation,
    params: Seq<Parameter>,
    trait_params: Seq<Parameter>,
    count: nat,
    i: int,
)
    requires
        0 <= i < count,
    ensures
        forall|d: DiagnosticView|
            parameter_diagnostics(db, inference, of, params[i], trait_params[i]).contains(d)
                ==> #[trigger] parameters_diagnostics(
                db,
                inference,
                of,
                params,
                trait_params,
                count,
            ).contains(d),
    decreases count,
{
    let before = parameters_diagnostics(
        db,
        inference,
        of,
        params,
        trait_params,
        (count - 1) as nat,
    );
    let own = parameter_diagnostics(
        db,
        inference,
        of,
        params[count - 1],
        trait_params[count - 1],
    );
    if i < count - 1 {
        lemma_parameter_is_part(
            db,
            inference,
            of,
            params,
            trait_params,
            (count - 1) as nat,
            i,
        );
    }
    assert forall|d: DiagnosticView|
        parameter_diagnostics(db, inference, of, params[i], trait_params[i]).contains(d) implies
        #[trigger] parameters_diagnostics(
            db,
            inference,
            of,
            params,
            trait_params,
            count,
        ).contains(d) by {
        crate::collections::lemma_concat_members(before, own, d);
    }
}

/// Whether what a generic parameter of a trait function asks for can be seen from the impl, as far
/// as it is compared: the arguments of the impl can be put in, and, next to a parameter of its kind,
/// those of the function.
pub open spec fn generic_seen(
    db: SemanticGroup,
    function_s: SubstitutionView,
    impl_s: SubstitutionView,
    expected: GenericParam,
    actual: GenericParam,
) -> bool {
    let types = db.facts.substituted_types@;
    match expected {
        GenericParam::Type(_) => true,
        GenericParam::Const(e) => if actual is Const {
            made_by_both(types, impl_s, function_s, e.ty) is Ok
        } else {
            made_of(types, (impl_s, e.ty), e.ty) is Ok
        },
        GenericParam::Impl(e) => bound_seen(db, function_s, impl_s, e, actual is Impl),
        GenericParam::NegImpl(e) => bound_seen(db, function_s, impl_s, e, actual is NegImpl),
    }
}

/// Whether what an impl parameter asks for can be seen, with the arguments of the impl put in, and
/// those of the function where `both` holds.
pub open spec fn bound_seen(
    db: SemanticGroup,
    function_s: SubstitutionView,
    impl_s: SubstitutionView,
    e: GenericParamImpl,
    both: bool,
) -> bool {
    let traits = db.facts.substituted_traits@;
    let constraints = db.facts.substituted_constraints@;
    if both {
        &&& e.concrete_trait matches Ok(t) ==> made_by_both(traits, impl_s, function_s, t) is Ok
        &&& made_by_both(constraints, impl_s, function_s, e.type_constraints) is Ok
    } else {
        &&& e.concrete_trait matches Ok(t) ==> made_of(traits, (impl_s, t), t) is Ok
        &&& made_of(constraints, (impl_s, e.type_constraints), e.type_constraints) is Ok
    }
}

/// Whether all types of a signature can be seen from the impl.
pub open spec fn signature_seen(
    db: SemanticGroup,
    function_s: SubstitutionView,
    impl_s: SubstitutionView,
    signature: SignatureView,
) -> bool {
    let types = db.facts.substituted_types@;
    &&& made_by_both(types, function_s, impl_s, signature.return_type) is Ok
    &&& forall|i: int|
        0 <= i < signature.params.len() ==> made_by_both(
            types,
            function_s,
            impl_s,
            (#[trigger] signature.params[i]).ty,
        ) is Ok
    &&& forall|i: int|
        0 <= i < signature.implicits.len() ==> made_by_both(
            types,
            function_s,
            impl_s,
            #[trigger] signature.implicits[i],
        ) is Ok
}

/// A function of an impl is found to implement the function of its name in the trait. Where the
/// trait has none that is reported, and where the numbers of generic parameters differ that alone
/// is. Otherwise it fails exactly where something that the trait function has cannot be seen from
/// the impl.
pub proof fn law_functions_implement_those_of_their_name(
    db: SemanticGroup,
    inference: Inference,
    function: FunctionToValidate,
    impl_s: SubstitutionView,
    concrete_trait: ConcreteTraitId,
    trait_function_id: TraitFunctionId,
    generics: Seq<GenericParam>,
    signature: SignatureView,
)
    requires
        implements_recorded(
            db,
            function,
            concrete_trait,
            trait_function_id,
            generics,
            signature,
        ),
    ensures
        ({
            let outcome = validation_outcome(db, inference, function, impl_s);
            let function_s = substitution_of(generics, function.args);
            &&& outcome.result matches Ok(found) ==> found == trait_function_id
            &&& function.generics.len() != generics.len() ==> outcome.result is Ok
                && outcome.diagnostics == seq![
                SemanticDiagnostic {
                    stable_ptr: function.syntax.name_ptr,
                    kind: SemanticDiagnosticKind::<
                        Seq<crate::ids::SmolStrId>,
                        Seq<char>,
                    >::WrongNumberOfGenericParamsForImplFunction {
                        expected: generics.len() as usize,
                        actual: function.generics.len() as usize,
                    },
                },
            ]
            &&& function.generics.len() == generics.len() ==> (outcome.result is Ok <==> {
                &&& forall|i: int|
                    0 <= i < generics.len() ==> generic_seen(
                        db,
                        function_s,
                        impl_s,
                        #[trigger] generics[i],
                        function.generics[i],
                    )
                &&& signature_seen(db, function_s, impl_s, signature)
            })
        }),
{
    let of = Implementation {
        impl_def_id: function.impl_function_id.impl_def_id,
        impl_function_id: function.impl_function_id,
        trait_id: db.spec_trait_long(concrete_trait).trait_id,
    };
    let function_s = substitution_of(generics, function.args);
    if function.generics.len() == generics.len() {
        lemma_substituted_params_keep_ids(db, impl_s, generics, function.args);
        lemma_signature_seen_iff(db, function_s, impl_s, signature);
        if let Ok(substituted) = db.spec_substitute_params(impl_s, generics) {
            lemma_generics_seen_iff(
                db,
                function_s,
                impl_s,
                of,
                function.generics,
                substituted,
                generics,
                generics.len(),
            );
        } else {
            let i = choose|i: int|
                0 <= i < generics.len() && !(db.spec_substitute_param(
                    impl_s,
                    #[trigger] generics[i],
                ) is Ok);
            assert(!generic_seen(db, function_s, impl_s, generics[i], function.generics[i]));
        }
    } else {
        assert(validation_outcome(db, inference, function, impl_s).diagnostics.len() == 1);
    }
}

/// Generic parameters can be compared exactly where what they ask for can be seen.
proof fn lemma_generics_seen_iff(
    db: SemanticGroup,
    function_s: SubstitutionView,
    impl_s: SubstitutionView,
    of: Implementation,
    actual: Seq<GenericParam>,
    substituted: Seq<GenericParam>,
    generics: Seq<GenericParam>,
    count: nat,
)
    requires
        count <= generics.len(),
        actual.len() == generics.len(),
        substituted.len() == generics.len(),
        forall|i: int|
            0 <= i < generics.len() ==> db.spec_substitute_param(impl_s, #[trigger] generics[i])
                == Ok::<_, DiagnosticAdded>(substituted[i]),
    ensures
        generics_outcome(db, function_s, of, actual, substituted, count).result is Ok
            <==> forall|i: int|
            0 <= i < count ==> generic_seen(
                db,
                function_s,
                impl_s,
                #[trigger] generics[i],
                actual[i],
            ),
    decreases count,
{
    if count > 0 {
        let last = count - 1;
        lemma_generics_seen_iff(
            db,
            function_s,
            impl_s,
            of,
            actual,
            substituted,
            generics,
            last as nat,
        );
        assert(generic_outcome(db, function_s, of, actual[last], substituted[last]).result is Ok
            <==> generic_seen(db, function_s, impl_s, generics[last], actual[last]));
    }
}

/// A signature can be substituted twice exactly where all its types can be seen.
proof fn lemma_signature_seen_iff(
    db: SemanticGroup,
    function_s: SubstitutionView,
    impl_s: SubstitutionView,
    signature: SignatureView,
)
    ensures
        signature_seen(db, function_s, impl_s, signature) <==> (db.spec_substitute_signature(
            function_s,
            signature,
        ) matches Ok(once) && db.spec_substitute_signature(impl_s, once) is Ok),
{
    let seen = signature_seen(db, function_s, impl_s, signature);
    if let Ok(once) = db.spec_substitute_signature(function_s, signature) {
        if db.spec_substitute_signature(impl_s, once) is Ok {
            lemma_signature_seen(
                db,
                function_s,
                impl_s,
                signature,
                once,
                db.spec_substitute_signature(impl_s, once)->Ok_0,
            );
            assert forall|i: int| 0 <= i < signature.implicits.len() implies made_by_both(
                db.facts.substituted_types@,
                function_s,
                impl_s,
                #[trigger] signature.implicits[i],
            ) is Ok by {
                assert(db.spec_substitute_type(function_s, signature.implicits[i]) is Ok);
                assert(db.spec_substitute_type(impl_s, once.implicits[i]) is Ok);
            }
        }
        if seen {
            assert forall|i: int| 0 <= i < once.params.len() implies db.spec_substitute_type(
                impl_s,
                (#[trigger] once.params[i]).ty,
            ) is Ok by {
                assert(made_by_both(
                    db.facts.substituted_types@,
                    function_s,
                    impl_s,
                    signature.params[i].ty,
                ) is Ok);
                assert(db.spec_substitute_type(function_s, signature.params[i].ty) is Ok);
            }
            assert forall|i: int| 0 <= i < once.implicits.len() implies db.spec_substitute_type(
                impl_s,
                #[trigger] once.implicits[i],
            ) is Ok by {
                assert(made_by_both(
                    db.facts.substituted_types@,
                    function_s,
                    impl_s,
                    signature.implicits[i],
                ) is Ok);
                assert(db.spec_substitute_type(function_s, signature.implicits[i]) is Ok);
            }
        }
    } else if seen {
        assert forall|i: int| 0 <= i < signature.params.len() implies db.spec_substitute_type(
            function_s,
            (#[trigger] signature.params[i]).ty,
        ) is Ok by {
            assert(made_by_both(
                db.facts.substituted_types@,
                function_s,
                impl_s,
                signature.params[i].ty,
            ) is Ok);
        }
        assert forall|i: int| 0 <= i < signature.implicits.len() implies db.spec_substitute_type(
            function_s,
            #[trigger] signature.implicits[i],
        ) is Ok by {
            assert(made_by_both(
                db.facts.substituted_types@,
                function_s,
                impl_s,
                signature.implicits[i],
            ) is Ok);
        }
    }
}

/// A function that the trait has none of the name for is reported, and implements nothing.
pub proof fn law_functions_that_the_trait_lacks_are_reported(
    db: SemanticGroup,
    inference: Inference,
    function: FunctionToValidate,
    impl_s: SubstitutionView,
    concrete_trait: ConcreteTraitId,
)
    requires
        db.spec_impl_def_concrete_trait(function.impl_function_id.impl_def_id) == Ok::<
            _,
            DiagnosticAdded,
        >(concrete_trait),
        lookup(
            db.facts.traits@,
            db.interned@.concrete_traits[concrete_trait.0 as int].trait_id,
        ) matches Some(f) && (f.functions matches Ok(items) && !has_key(
            items@,
            function.impl_function_id.name,
        )),
    ensures
        validation_outcome(db, inference, function, impl_s).result is Err,
        validation_outcome(db, inference, function, impl_s).diagnostics == seq![
            SemanticDiagnostic {
                stable_ptr: function.syntax.stable_ptr,
                kind: SemanticDiagnosticKind::<
                    Seq<crate::ids::SmolStrId>,
                    Seq<char>,
                >::ImplItemNotInTrait {
                    impl_def_id: function.impl_function_id.impl_def_id,
                    impl_item_name: function.impl_function_id.name,
                    trait_id: db.interned@.concrete_traits[concrete_trait.0 as int].trait_id,
                    item_kind: ItemKind::Function,
                },
            },
        ],
{
    assert(validation_outcome(db, inference, function, impl_s).diagnostics.len() == 1);
}

/// Whether a diagnostic tells something of a place.
pub open spec fn is_told(x: DiagnosticView, stable_ptr: SyntaxStablePtrId, kind: KindView) -> bool {
    x.stable_ptr == stable_ptr && x.kind == kind
}

/// Whether a diagnostic tells how a generic parameter differs from the one that the trait function
/// has in its place: by its name, by its kind, or by what it asks for.
pub open spec fn tells_generic_difference(
    db: SemanticGroup,
    function_s: SubstitutionView,
    impl_s: SubstitutionView,
    of: Implementation,
    expected: GenericParam,
    actual: GenericParam,
    x: DiagnosticView,
) -> bool {
    let Implementation { impl_def_id, impl_function_id, trait_id } = of;
    let differs_in_bound = |e: GenericParamImpl, a: GenericParamImpl|
        !same_bound_seen(db, function_s, impl_s, e, a) && a.concrete_trait is Ok && is_told(
            x,
            a.id.stable_ptr,
            SemanticDiagnosticKind::WrongGenericParamTraitForImplFunction {
                impl_def_id,
                impl_function_id,
                trait_id,
                expected_trait: made_by_both(
                    db.facts.substituted_traits@,
                    impl_s,
                    function_s,
                    e.concrete_trait->Ok_0,
                )->Ok_0,
                actual_trait: a.concrete_trait->Ok_0,
            },
        );
    ||| expected.spec_id().name matches Some(name) && actual.spec_id().name != Some(name) && is_told(
        x,
        actual.spec_id().stable_ptr,
        SemanticDiagnosticKind::WrongParameterName {
            impl_def_id,
            impl_function_id,
            trait_id,
            expected_name: name,
        },
    )
    ||| match (expected, actual) {
        (GenericParam::Type(_), GenericParam::Type(_)) => false,
        (GenericParam::Const(e), GenericParam::Const(a)) => {
            let seen = made_by_both(db.facts.substituted_types@, impl_s, function_s, e.ty);
            seen is Ok && seen->Ok_0 != a.ty && is_told(
                x,
                a.id.stable_ptr,
                SemanticDiagnosticKind::WrongParameterType {
                    impl_def_id,
                    impl_function_id,
                    trait_id,
                    expected_ty: seen->Ok_0,
                    actual_ty: a.ty,
                },
            )
        },
        (GenericParam::Impl(e), GenericParam::Impl(a)) => differs_in_bound(e, a),
        (GenericParam::NegImpl(e), GenericParam::NegImpl(a)) => differs_in_bound(e, a),
        _ => is_told(
            x,
            actual.spec_id().stable_ptr,
            SemanticDiagnosticKind::WrongGenericParamKindForImplFunction {
                impl_def_id,
                impl_function_id,
                trait_id,
                expected_kind: expected.spec_kind(),
                actual_kind: actual.spec_kind(),
            },
        ),
    }
}

/// Whether a diagnostic tells how a parameter differs from the one that the trait function has in
/// its place: by its type, by how it is passed, or by its name.
pub open spec fn tells_parameter_difference(
    db: SemanticGroup,
    inference: Inference,
    function_s: SubstitutionView,
    impl_s: SubstitutionView,
    of: Implementation,
    expected: Parameter,
    actual: Parameter,
    x: DiagnosticView,
) -> bool {
    let Implementation { impl_def_id, impl_function_id, trait_id } = of;
    ||| !same_type_seen(db, inference, function_s, impl_s, expected.ty, actual.ty) && is_told(
        x,
        actual.type_ptr,
        SemanticDiagnosticKind::WrongParameterType {
            impl_def_id,
            impl_function_id,
            trait_id,
            expected_ty: settled_type(
                inference,
                made_by_both(db.facts.substituted_types@, function_s, impl_s, expected.ty)->Ok_0,
            ),
            actual_ty: settled_type(inference, actual.ty),
        },
    )
    ||| expected.mutability is Reference && !(actual.mutability is Reference) && is_told(
        x,
        actual.modifiers_ptr,
        SemanticDiagnosticKind::ParameterShouldBeReference {
            impl_def_id,
            impl_function_id,
            trait_id,
        },
    )
    ||| !(expected.mutability is Reference) && actual.mutability is Reference && is_told(
        x,
        actual.modifiers_ptr,
        SemanticDiagnosticKind::ParameterShouldNotBeReference {
            impl_def_id,
            impl_function_id,
            trait_id,
        },
    )
    ||| expected.name != actual.name && is_told(
        x,
        actual.name_ptr,
        SemanticDiagnosticKind::WrongParameterName {
            impl_def_id,
            impl_function_id,
            trait_id,
            expected_name: expected.name,
        },
    )
}

/// A list of at most one diagnostic holds that one.
proof fn lemma_report_if(condition: bool, ptr: SyntaxStablePtrId, kind: KindView, x: DiagnosticView)
    ensures
        report_if(condition, ptr, kind).contains(x) <==> condition && is_told(x, ptr, kind),
{
    if condition {
        assert(report_if(condition, ptr, kind)[0] == diagnostic(ptr, kind));
    }
}

proof fn lemma_generic_tells(
    db: SemanticGroup,
    function_s: SubstitutionView,
    impl_s: SubstitutionView,
    of: Implementation,
    expected: GenericParam,
    substituted: GenericParam,
    actual: GenericParam,
    x: DiagnosticView,
)
    requires
        db.spec_substitute_param(impl_s, expected) == Ok::<_, DiagnosticAdded>(substituted),
        generic_outcome(db, function_s, of, actual, substituted).result is Ok,
    ensures
        generic_outcome(db, function_s, of, actual, substituted).diagnostics.contains(x)
            <==> tells_generic_difference(db, function_s, impl_s, of, expected, actual, x),
{
    let name = generic_name_diagnostics(of, actual, substituted);
    let kind = generic_kind_outcome(db, function_s, of, actual, substituted).diagnostics;
    crate::collections::lemma_concat_members(name, kind, x);
    assert(substituted.spec_id() == expected.spec_id());
    assert(substituted.spec_kind() == expected.spec_kind());
    if name.len() > 0 {
        assert(name.contains(name[0]));
    }
    if kind.len() > 0 {
        assert(kind.contains(kind[0]));
    }
}

proof fn lemma_generics_tell(
    db: SemanticGroup,
    function_s: SubstitutionView,
    impl_s: SubstitutionView,
    of: Implementation,
    actual: Seq<GenericParam>,
    substituted: Seq<GenericParam>,
    generics: Seq<GenericParam>,
    count: nat,
    x: DiagnosticView,
)
    requires
        count <= generics.len(),
        actual.len() == generics.len(),
        substituted.len() == generics.len(),
        forall|i: int|
            0 <= i < generics.len() ==> db.spec_substitute_param(impl_s, #[trigger] generics[i])
                == Ok::<_, DiagnosticAdded>(substituted[i]),
        generics_outcome(db, function_s, of, actual, substituted, count).result is Ok,
    ensures
        generics_outcome(db, function_s, of, actual, substituted, count).diagnostics.contains(x)
            <==> exists|i: int|
            0 <= i < count && tells_generic_difference(
                db,
                function_s,
                impl_s,
                of,
                #[trigger] generics[i],
                actual[i],
                x,
            ),
    decreases count,
{
    if count > 0 {
        let last = count - 1;
        let before = generics_outcome(db, function_s, of, actual, substituted, last as nat);
        let one = generic_outcome(db, function_s, of, actual[last], substituted[last]);
        lemma_generics_tell(
            db,
            function_s,
            impl_s,
            of,
            actual,
            substituted,
            generics,
            last as nat,
            x,
        );
        assert(db.spec_substitute_param(impl_s, generics[last]) is Ok);
        lemma_generic_tells(
            db,
            function_s,
            impl_s,
            of,
            generics[last],
            substituted[last],
            actual[last],
            x,
        );
        crate::collections::lemma_concat_members(before.diagnostics, one.diagnostics, x);
    }
}

proof fn lemma_parameter_tells(
    db: SemanticGroup,
    inference: Inference,
    function_s: SubstitutionView,
    impl_s: SubstitutionView,
    of: Implementation,
    expected: Parameter,
    substituted: Parameter,
    actual: Parameter,
    x: DiagnosticView,
)
    requires
        made_by_both(db.facts.substituted_types@, function_s, impl_s, expected.ty) == Ok::<
            _,
            DiagnosticAdded,
        >(substituted.ty),
        substituted.name == expected.name,
        substituted.mutability == expected.mutability,
    ensures
        parameter_diagnostics(db, inference, of, actual, substituted).contains(x)
            <==> tells_parameter_difference(
            db,
            inference,
            function_s,
            impl_s,
            of,
            expected,
            actual,
            x,
        ),
{
    let Implementation { impl_def_id, impl_function_id, trait_id } = of;
    let expected_ty = inference.spec_rewrite_type(substituted.ty);
    let actual_ty = inference.spec_rewrite_type(actual.ty);
    let by_type = SemanticDiagnosticKind::WrongParameterType {
        impl_def_id,
        impl_function_id,
        trait_id,
        expected_ty,
        actual_ty,
    };
    let by_ref = SemanticDiagnosticKind::ParameterShouldBeReference {
        impl_def_id,
        impl_function_id,
        trait_id,
    };
    let by_value = SemanticDiagnosticKind::ParameterShouldNotBeReference {
        impl_def_id,
        impl_function_id,
        trait_id,
    };
    let by_name = SemanticDiagnosticKind::WrongParameterName {
        impl_def_id,
        impl_function_id,
        trait_id,
        expected_name: substituted.name,
    };
    let differ = types_differ(db, expected_ty, actual_ty);
    let to_ref = substituted.mutability == Mutability::Reference && actual.mutability
        != Mutability::Reference;
    let to_value = substituted.mutability != Mutability::Reference && actual.mutability
        == Mutability::Reference;
    let renamed = substituted.name != actual.name;
    let a = report_if(differ, actual.type_ptr, by_type);
    let b = report_if(to_ref, actual.modifiers_ptr, by_ref);
    let c = report_if(to_value, actual.modifiers_ptr, by_value);
    let d = report_if(renamed, actual.name_ptr, by_name);
    lemma_report_if(differ, actual.type_ptr, by_type, x);
    lemma_report_if(to_ref, actual.modifiers_ptr, by_ref, x);
    lemma_report_if(to_value, actual.modifiers_ptr, by_value, x);
    lemma_report_if(renamed, actual.name_ptr, by_name, x);
    assert(parameter_diagnostics(db, inference, of, actual, substituted) == a + b + c + d);
    crate::collections::lemma_concat_members(a, b, x);
    crate::collections::lemma_concat_members(a + b, c, x);
    crate::collections::lemma_concat_members(a + b + c, d, x);
}

proof fn lemma_parameters_tell(
    db: SemanticGroup,
    inference: Inference,
    function_s: SubstitutionView,
    impl_s: SubstitutionView,
    of: Implementation,
    actual: Seq<Parameter>,
    substituted: Seq<Parameter>,
    expected: Seq<Parameter>,
    count: nat,
    x: DiagnosticView,
)
    requires
        count <= actual.len(),
        count <= expected.len(),
        substituted.len() == expected.len(),
        forall|i: int|
            0 <= i < expected.len() ==> made_by_both(
                db.facts.substituted_types@,
                function_s,
                impl_s,
                (#[trigger] expected[i]).ty,
            ) == Ok::<_, DiagnosticAdded>(substituted[i].ty) && substituted[i].name
                == expected[i].name && substituted[i].mutability == expected[i].mutability,
    ensures
        parameters_diagnostics(db, inference, of, actual, substituted, count).contains(x)
            <==> exists|i: int|
            0 <= i < count && tells_parameter_difference(
                db,
                inference,
                function_s,
                impl_s,
                of,
                #[trigger] expected[i],
                actual[i],
                x,
            ),
    decreases count,
{
    if count > 0 {
        let last = count - 1;
        lemma_parameters_tell(
            db,
            inference,
            function_s,
            impl_s,
            of,
            actual,
            substituted,
            expected,
            last as nat,
            x,
        );
        lemma_parameter_tells(
            db,
            inference,
            function_s,
            impl_s,
            of,
            expected[last],
            substituted[last],
            actual[last],
            x,
        );
        crate::collections::lemma_concat_members(
            parameters_diagnostics(db, inference, of, actual, substituted, last as nat),
            parameter_diagnostics(db, inference, of, actual[last], substituted[last]),
            x,
        );
    }
}

/// What is reported of the signature of a function is exact: a diagnostic is reported if and only if
/// it tells how a generic parameter or a parameter differs from that of the trait function, that
/// their numbers of parameters or their return types differ, that the function can panic where that
/// of the trait cannot, or that it is not const where that is.
pub proof fn law_signature_reports_are_exact(
    db: SemanticGroup,
    inference: Inference,
    function: FunctionToValidate,
    impl_s: SubstitutionView,
    concrete_trait: ConcreteTraitId,
    trait_function_id: TraitFunctionId,
    generics: Seq<GenericParam>,
    signature: SignatureView,
    x: DiagnosticView,
)
    requires
        implements_recorded(
            db,
            function,
            concrete_trait,
            trait_function_id,
            generics,
            signature,
        ),
        validation_outcome(db, inference, function, impl_s).result is Ok,
        function.generics.len() == generics.len(),
    ensures
        ({
            let function_s = substitution_of(generics, function.args);
            let impl_function_id = function.impl_function_id;
            let impl_def_id = impl_function_id.impl_def_id;
            let trait_id = db.interned@.concrete_traits[concrete_trait.0 as int].trait_id;
            let of = Implementation { impl_def_id, impl_function_id, trait_id };
            let given = function.signature;
            validation_outcome(db, inference, function, impl_s).diagnostics.contains(x) <==> {
                ||| exists|i: int|
                    0 <= i < generics.len() && tells_generic_difference(
                        db,
                        function_s,
                        impl_s,
                        of,
                        #[trigger] generics[i],
                        function.generics[i],
                        x,
                    )
                ||| exists|i: int|
                    0 <= i < signature.params.len() && i < given.params.len()
                        && tells_parameter_difference(
                        db,
                        inference,
                        function_s,
                        impl_s,
                        of,
                        #[trigger] signature.params[i],
                        given.params[i],
                        x,
                    )
                ||| given.params.len() != signature.params.len() && is_told(
                    x,
                    function.syntax.parameters_ptr,
                    SemanticDiagnosticKind::WrongNumberOfParameters {
                        impl_def_id,
                        impl_function_id,
                        trait_id,
                        expected: signature.params.len() as usize,
                        actual: given.params.len() as usize,
                    },
                )
                ||| given.panicable && !signature.panicable && is_told(
                    x,
                    function.syntax.signature_ptr,
                    SemanticDiagnosticKind::PassPanicAsNopanic { impl_function_id, trait_id },
                )
                ||| signature.is_const && !given.is_const && is_told(
                    x,
                    function.syntax.signature_ptr,
                    SemanticDiagnosticKind::PassConstAsNonConst { impl_function_id, trait_id },
                )
                ||| !same_type_seen(
                    db,
                    inference,
                    function_s,
                    impl_s,
                    signature.return_type,
                    given.return_type,
                ) && is_told(
                    x,
                    match function.syntax.ret_ty_ptr {
                        Some(ptr) => ptr,
                        None => function.syntax.lbrace_ptr,
                    },
                    SemanticDiagnosticKind::WrongReturnTypeForImpl {
                        impl_def_id,
                        impl_function_id,
                        trait_id,
                        expected_ty: settled_type(
                            inference,
                            made_by_both(
                                db.facts.substituted_types@,
                                function_s,
                                impl_s,
                                signature.return_type,
                            )->Ok_0,
                        ),
                        actual_ty: settled_type(inference, given.return_type),
                    },
                )
            }
        }),
{
    let impl_function_id = function.impl_function_id;
    let impl_def_id = impl_function_id.impl_def_id;
    let trait_id = db.spec_trait_long(concrete_trait).trait_id;
    let of = Implementation { impl_def_id, impl_function_id, trait_id };
    let given = function.signature;
    let outcome = validation_outcome(db, inference, function, impl_s);
    lemma_substituted_params_keep_ids(db, impl_s, generics, function.args);
    let expected_generics = db.spec_substitute_params(impl_s, generics)->Ok_0;
    let function_s = substitution_of(generics, function.args);
    let n = function.generics.len();
    let compared = generics_outcome(
        db,
        function_s,
        of,
        function.generics,
        expected_generics,
        n,
    );
    let once = db.spec_substitute_signature(function_s, signature)->Ok_0;
    let twice = db.spec_substitute_signature(impl_s, once)->Ok_0;
    lemma_signature_seen(db, function_s, impl_s, signature, once, twice);
    let counted = parameter_count_diagnostics(of, function, once);
    let rest = signature_diagnostics(db, inference, of, function, twice);
    assert(outcome.diagnostics == compared.diagnostics + counted + rest);
    crate::collections::lemma_concat_members(compared.diagnostics, counted, x);
    crate::collections::lemma_concat_members(compared.diagnostics + counted, rest, x);
    lemma_generics_tell(
        db,
        function_s,
        impl_s,
        of,
        function.generics,
        expected_generics,
        generics,
        n,
        x,
    );
    let wrong_number = SemanticDiagnosticKind::WrongNumberOfParameters {
        impl_def_id,
        impl_function_id,
        trait_id,
        expected: once.params.len() as usize,
        actual: given.params.len() as usize,
    };
    lemma_report_if(
        given.params.len() != once.params.len(),
        function.syntax.parameters_ptr,
        wrong_number,
        x,
    );
    let count = shorter(given.params.len(), twice.params.len());
    let expected_ty = inference.spec_rewrite_type(twice.return_type);
    let actual_ty = inference.spec_rewrite_type(given.return_type);
    let panics = SemanticDiagnosticKind::PassPanicAsNopanic { impl_function_id, trait_id };
    let no_const = SemanticDiagnosticKind::PassConstAsNonConst { impl_function_id, trait_id };
    let wrong_return = SemanticDiagnosticKind::WrongReturnTypeForImpl {
        impl_def_id,
        impl_function_id,
        trait_id,
        expected_ty,
        actual_ty,
    };
    let ptr = function.syntax.signature_ptr;
    let a = parameters_diagnostics(db, inference, of, given.params, twice.params, count);
    let b = report_if(!twice.panicable && given.panicable, ptr, panics);
    let c = report_if(twice.is_const && !given.is_const, ptr, no_const);
    let differ = types_differ(db, expected_ty, actual_ty);
    let d = report_if(differ, return_type_ptr(function.syntax), wrong_return);
    assert(rest == a + b + c + d);
    lemma_report_if(!twice.panicable && given.panicable, ptr, panics, x);
    lemma_report_if(twice.is_const && !given.is_const, ptr, no_const, x);
    lemma_report_if(differ, return_type_ptr(function.syntax), wrong_return, x);
    crate::collections::lemma_concat_members(a, b, x);
    crate::collections::lemma_concat_members(a + b, c, x);
    crate::collections::lemma_concat_members(a + b + c, d, x);
    lemma_parameters_tell(
        db,
        inference,
        function_s,
        impl_s,
        of,
        given.params,
        twice.params,
        signature.params,
        count,
        x,
    );
}

} // verus!
