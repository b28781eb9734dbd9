//! Diagnostics of the analysis.

use vstd::prelude::*;

use crate::ids::{
    ConcreteTraitId, GenericKind, ImplDefId, ImplFunctionId, InferenceErrorId, SmolStrId,
    SyntaxStablePtrId, TraitId, TraitImplId, TypeId,
};

verus! {

/// Evidence that a diagnostic was reported.
#[derive(Clone, Copy, PartialEq, Eq, Structural, Debug)]
pub struct DiagnosticAdded;

/// A value, or the evidence that its absence was reported.
pub type Maybe<T> = Result<T, DiagnosticAdded>;

/// Evidence for an error that is reported elsewhere.
pub fn skip_diagnostic() -> (res: DiagnosticAdded)
    ensures
        res == DiagnosticAdded,
{
    DiagnosticAdded
}

/// How grave a diagnostic is.
#[derive(Clone, Copy, PartialEq, Eq, Structural, Debug)]
pub enum Severity {
    Error,
    Warning,
}

/// What kept inference from settling on one impl.
#[derive(Clone, Copy, PartialEq, Eq, Structural, Debug)]
pub enum Ambiguity {
    MultipleImplsFound(InferenceErrorId),
    Other(InferenceErrorId),
}

/// A failure of inference.
#[derive(Clone, Copy, PartialEq, Eq, Structural, Debug)]
pub enum InferenceError {
    Ambiguity(Ambiguity),
    NoImplsFound(ConcreteTraitId),
    Other(InferenceErrorId),
}

/// The kind of an item as diagnostics name it.
#[derive(Clone, Copy, PartialEq, Eq, Structural, Debug)]
pub enum ItemKind {
    Type,
    Const,
    Impl,
    Function,
}

/// The scope of an item as diagnostics name it.
#[derive(Clone, Copy, PartialEq, Eq, Structural, Debug)]
pub enum ItemScope {
    Impl,
}

/// A diagnostic that another stage of the compiler reports.
#[derive(Clone, Copy, PartialEq, Eq, Structural, Debug)]
pub struct OutsideDiagnostic {
    pub stable_ptr: SyntaxStablePtrId,
    pub code: u64,
    pub severity: Severity,
}

/// What a diagnostic says.
#[derive(Debug)]
pub enum SemanticDiagnosticKind<Names = Vec<SmolStrId>, Text = String> {
    NotATrait,
    ImplRequirementCycle,
    CompilerTraitReImplementation { trait_id: TraitId },
    MustBeNextToTypeOrTrait { trait_id: TraitId },
    DerefCycle { deref_chain: Text },
    NameDefinedMultipleTimes(SmolStrId),
    MissingItemsInImpl(Names),
    InvalidImplItem(SmolStrId),
    InvalidCopyTraitImpl(InferenceError),
    InvalidDropTraitImpl(InferenceError),
    ImplItemNotInTrait {
        impl_def_id: ImplDefId,
        impl_item_name: SmolStrId,
        trait_id: TraitId,
        item_kind: ItemKind,
    },
    /// Generic parameters on an item of an impl.
    GenericsNotSupportedInItem { scope: ItemScope, item_kind: ItemKind },
    WrongType { expected_ty: TypeId, actual_ty: TypeId },
    TraitMismatch { expected_trt: ConcreteTraitId, actual_trt: ConcreteTraitId },
    ImplAliasCycle,
    ImplicitImplNotInferred { trait_impl_id: TraitImplId, concrete_trait_id: ConcreteTraitId },
    WrongNumberOfGenericParamsForImplFunction { expected: usize, actual: usize },
    WrongParameterName {
        impl_def_id: ImplDefId,
        impl_function_id: ImplFunctionId,
        trait_id: TraitId,
        expected_name: SmolStrId,
    },
    WrongGenericParamTraitForImplFunction {
        impl_def_id: ImplDefId,
        impl_function_id: ImplFunctionId,
        trait_id: TraitId,
        expected_trait: ConcreteTraitId,
        actual_trait: ConcreteTraitId,
    },
    WrongGenericParamKindForImplFunction {
        impl_def_id: ImplDefId,
        impl_function_id: ImplFunctionId,
        trait_id: TraitId,
        expected_kind: GenericKind,
        actual_kind: GenericKind,
    },
    WrongParameterType {
        impl_def_id: ImplDefId,
        impl_function_id: ImplFunctionId,
        trait_id: TraitId,
        expected_ty: TypeId,
        actual_ty: TypeId,
    },
    WrongNumberOfParameters {
        impl_def_id: ImplDefId,
        impl_function_id: ImplFunctionId,
        trait_id: TraitId,
        expected: usize,
        actual: usize,
    },
    ParameterShouldBeReference {
        impl_def_id: ImplDefId,
        impl_function_id: ImplFunctionId,
        trait_id: TraitId,
    },
    ParameterShouldNotBeReference {
        impl_def_id: ImplDefId,
        impl_function_id: ImplFunctionId,
        trait_id: TraitId,
    },
    PassPanicAsNopanic { impl_function_id: ImplFunctionId, trait_id: TraitId },
    PassConstAsNonConst { impl_function_id: ImplFunctionId, trait_id: TraitId },
    WrongReturnTypeForImpl {
        impl_def_id: ImplDefId,
        impl_function_id: ImplFunctionId,
        trait_id: TraitId,
        expected_ty: TypeId,
        actual_ty: TypeId,
    },
    /// What another stage of the compiler says.
    Outside { code: u64, severity: Severity },
}

/// A diagnostic and the place that it is about.
#[derive(Debug)]
pub struct SemanticDiagnostic<Names = Vec<SmolStrId>, Text = String> {
    pub stable_ptr: SyntaxStablePtrId,
    pub kind: SemanticDiagnosticKind<Names, Text>,
}

/// What a diagnostic says, with its lists as sequences.
pub type KindView = SemanticDiagnosticKind<Seq<SmolStrId>, Seq<char>>;

/// A diagnostic, with its lists as sequences.
pub type DiagnosticView = SemanticDiagnostic<Seq<SmolStrId>, Seq<char>>;

impl View for SemanticDiagnosticKind {
    type V = KindView;

    open spec fn view(&self) -> KindView {
        match self {
            SemanticDiagnosticKind::NotATrait => SemanticDiagnosticKind::NotATrait,
            SemanticDiagnosticKind::ImplRequirementCycle => {
                SemanticDiagnosticKind::ImplRequirementCycle
            },
            SemanticDiagnosticKind::CompilerTraitReImplementation { trait_id } => {
                SemanticDiagnosticKind::CompilerTraitReImplementation {
                    trait_id: *trait_id,
                }
            },
            SemanticDiagnosticKind::MustBeNextToTypeOrTrait { trait_id } => {
                SemanticDiagnosticKind::MustBeNextToTypeOrTrait {
                    trait_id: *trait_id,
                }
            },
            SemanticDiagnosticKind::DerefCycle { deref_chain } => {
                SemanticDiagnosticKind::DerefCycle {
                    deref_chain: deref_chain@,
                }
            },
            SemanticDiagnosticKind::NameDefinedMultipleTimes(x) => {
                SemanticDiagnosticKind::NameDefinedMultipleTimes(*x)
            },
            SemanticDiagnosticKind::MissingItemsInImpl(x) => {
                SemanticDiagnosticKind::MissingItemsInImpl(x@)
            },
            SemanticDiagnosticKind::InvalidImplItem(x) => {
                SemanticDiagnosticKind::InvalidImplItem(*x)
            },
            SemanticDiagnosticKind::InvalidCopyTraitImpl(x) => {
                SemanticDiagnosticKind::InvalidCopyTraitImpl(*x)
            },
            SemanticDiagnosticKind::InvalidDropTraitImpl(x) => {
                SemanticDiagnosticKind::InvalidDropTraitImpl(*x)
            },
            SemanticDiagnosticKind::ImplItemNotInTrait {
                impl_def_id,
                impl_item_name,
                trait_id,
                item_kind,
            } => {
                SemanticDiagnosticKind::ImplItemNotInTrait {
                    impl_def_id: *impl_def_id,
                    impl_item_name: *impl_item_name,
                    trait_id: *trait_id,
                    item_kind: *item_kind,
                }
            },
            SemanticDiagnosticKind::GenericsNotSupportedInItem { scope, item_kind } => {
                SemanticDiagnosticKind::GenericsNotSupportedInItem {
                    scope: *scope,
                    item_kind: *item_kind,
                }
            },
            SemanticDiagnosticKind::WrongType { expected_ty, actual_ty } => {
                SemanticDiagnosticKind::WrongType {
                    expected_ty: *expected_ty,
                    actual_ty: *actual_ty,
                }
            },
            SemanticDiagnosticKind::TraitMismatch { expected_trt, actual_trt } => {
                SemanticDiagnosticKind::TraitMismatch {
                    expected_trt: *expected_trt,
                    actual_trt: *actual_trt,
                }
            },
            SemanticDiagnosticKind::ImplAliasCycle => SemanticDiagnosticKind::ImplAliasCycle,
            SemanticDiagnosticKind::ImplicitImplNotInferred {
                trait_impl_id,
                concrete_trait_id,
            } => {
                SemanticDiagnosticKind::ImplicitImplNotInferred {
                    trait_impl_id: *trait_impl_id,
                    concrete_trait_id: *concrete_trait_id,
                }
            },
            SemanticDiagnosticKind::WrongNumberOfGenericParamsForImplFunction {
                expected,
                actual,
            } => {
                SemanticDiagnosticKind::WrongNumberOfGenericParamsForImplFunction {
                    expected: *expected,
                    actual: *actual,
                }
            },
            SemanticDiagnosticKind::WrongParameterName {
                impl_def_id,
                impl_function_id,
                trait_id,
                expected_name,
            } => {
                SemanticDiagnosticKind::WrongParameterName {
                    impl_def_id: *impl_def_id,
                    impl_function_id: *impl_function_id,
                    trait_id: *trait_id,
                    expected_name: *expected_name,
                }
            },
            SemanticDiagnosticKind::WrongGenericParamTraitForImplFunction {
                impl_def_id,
                impl_function_id,
                trait_id,
                expected_trait,
                actual_trait,
            } => {
                SemanticDiagnosticKind::WrongGenericParamTraitForImplFunction {
                    impl_def_id: *impl_def_id,
                    impl_function_id: *impl_function_id,
                    trait_id: *trait_id,
                    expected_trait: *expected_trait,
                    actual_trait: *actual_trait,
                }
            },
            SemanticDiagnosticKind::WrongGenericParamKindForImplFunction {
                impl_def_id,
                impl_function_id,
                trait_id,
                expected_kind,
                actual_kind,
            } => {
                SemanticDiagnosticKind::WrongGenericParamKindForImplFunction {
                    impl_def_id: *impl_def_id,
                    impl_function_id: *impl_function_id,
                    trait_id: *trait_id,
                    expected_kind: *expected_kind,
                    actual_kind: *actual_kind,
                }
            },
            SemanticDiagnosticKind::WrongParameterType {
                impl_def_id,
                impl_function_id,
                trait_id,
                expected_ty,
                actual_ty,
            } => {
                SemanticDiagnosticKind::WrongParameterType {
                    impl_def_id: *impl_def_id,
                    impl_function_id: *impl_function_id,
                    trait_id: *trait_id,
                    expected_ty: *expected_ty,
                    actual_ty: *actual_ty,
                }
            },
            SemanticDiagnosticKind::WrongNumberOfParameters {
                impl_def_id,
                impl_function_id,
                trait_id,
                expected,
                actual,
            } => {
                SemanticDiagnosticKind::WrongNumberOfParameters {
                    impl_def_id: *impl_def_id,
                    impl_function_id: *impl_function_id,
                    trait_id: *trait_id,
                    expected: *expected,
                    actual: *actual,
                }
            },
            SemanticDiagnosticKind::ParameterShouldBeReference {
                impl_def_id,
                impl_function_id,
                trait_id,
            } => {
                SemanticDiagnosticKind::ParameterShouldBeReference {
                    impl_def_id: *impl_def_id,
                    impl_function_id: *impl_function_id,
                    trait_id: *trait_id,
                }
            },
            SemanticDiagnosticKind::ParameterShouldNotBeReference {
                impl_def_id,
                impl_function_id,
                trait_id,
            } => {
                SemanticDiagnosticKind::ParameterShouldNotBeReference {
                    impl_def_id: *impl_def_id,
                    impl_function_id: *impl_function_id,
                    trait_id: *trait_id,
                }
            },
            SemanticDiagnosticKind::PassPanicAsNopanic { impl_function_id, trait_id } => {
                SemanticDiagnosticKind::PassPanicAsNopanic {
                    impl_function_id: *impl_function_id,
                    trait_id: *trait_id,
                }
            },
            SemanticDiagnosticKind::PassConstAsNonConst { impl_function_id, trait_id } => {
                SemanticDiagnosticKind::PassConstAsNonConst {
                    impl_function_id: *impl_function_id,
                    trait_id: *trait_id,
                }
            },
            SemanticDiagnosticKind::WrongReturnTypeForImpl {
                impl_def_id,
                impl_function_id,
                trait_id,
                expected_ty,
                actual_ty,
            } => {
                SemanticDiagnosticKind::WrongReturnTypeForImpl {
                    impl_def_id: *impl_def_id,
                    impl_function_id: *impl_function_id,
                    trait_id: *trait_id,
                    expected_ty: *expected_ty,
                    actual_ty: *actual_ty,
                }
            },
            SemanticDiagnosticKind::Outside { code, severity } => {
                SemanticDiagnosticKind::Outside {
                    code: *code,
                    severity: *severity,
                }
            },
        }
    }
}

impl View for SemanticDiagnostic {
    type V = DiagnosticView;

    open spec fn view(&self) -> DiagnosticView {
        SemanticDiagnostic { stable_ptr: self.stable_ptr, kind: self.kind@ }
    }
}

/// One diagnostic as a value of the specification.
pub open spec fn diagnostic(stable_ptr: SyntaxStablePtrId, kind: KindView) -> DiagnosticView {
    SemanticDiagnostic { stable_ptr, kind }
}

/// Whether a diagnostic is an error.
pub open spec fn is_error(d: DiagnosticView) -> bool {
    match d.kind {
        SemanticDiagnosticKind::Outside { code, severity } => severity == Severity::Error,
        _ => true,
    }
}

/// The diagnostics of other stages as diagnostics of this one.
pub open spec fn outside_view(list: Seq<OutsideDiagnostic>) -> Seq<DiagnosticView> {
    Seq::new(
        list.len(),
        |i: int|
            diagnostic(
                list[i].stable_ptr,
                SemanticDiagnosticKind::Outside {
                    code: list[i].code,
                    severity: list[i].severity,
                },
            ),
    )
}

/// The views of the entries.
pub open spec fn entry_views(s: Seq<SemanticDiagnostic>) -> Seq<DiagnosticView> {
    Seq::new(s.len(), |i: int| s[i]@)
}

/// A finished list of diagnostics.
#[derive(Debug)]
pub struct Diagnostics {
    pub entries: Vec<SemanticDiagnostic>,
}

impl View for Diagnostics {
    type V = Seq<DiagnosticView>;

    open spec fn view(&self) -> Seq<DiagnosticView> {
        entry_views(self.entries@)
    }
}

impl Diagnostics {
    /// No diagnostics.
    pub fn new() -> (res: Self)
        ensures
            res@ == Seq::<DiagnosticView>::empty(),
    {
        let res = Diagnostics { entries: Vec::new() };
        assert(res@ =~= Seq::<DiagnosticView>::empty());
        res
    }
}

/// Diagnostics in the order in which they are reported.
#[derive(Debug)]
pub struct SemanticDiagnostics {
    entries: Vec<SemanticDiagnostic>,
}

impl View for SemanticDiagnostics {
    type V = Seq<DiagnosticView>;

    closed spec fn view(&self) -> Seq<DiagnosticView> {
        entry_views(self.entries@)
    }
}

impl SemanticDiagnostics {
    pub fn new() -> (res: Self)
        ensures
            res@ == Seq::<DiagnosticView>::empty(),
    {
        let res = SemanticDiagnostics { entries: Vec::new() };
        assert(res@ =~= Seq::<DiagnosticView>::empty());
        res
    }

    /// Reports one diagnostic.
    pub fn report(
        &mut self,
        stable_ptr: SyntaxStablePtrId,
        kind: SemanticDiagnosticKind,
    ) -> (res: DiagnosticAdded)
        ensures
            final(self)@ == old(self)@.push(diagnostic(stable_ptr, kind@)),
    {
        let ghost before = self@;
        self.entries.push(SemanticDiagnostic { stable_ptr, kind });
        assert(self@ =~= before.push(diagnostic(stable_ptr, kind@)));
        DiagnosticAdded
    }

    /// Adds finished diagnostics.
    pub fn extend(&mut self, diagnostics: Diagnostics)
        ensures
            final(self)@ == old(self)@ + diagnostics@,
    {
        let ghost before = self@;
        let mut list = diagnostics.entries;
        self.entries.append(&mut list);
        assert(self@ =~= before + diagnostics@);
    }

    /// Adds the diagnostics of another stage.
    pub fn extend_outside(&mut self, list: &Vec<OutsideDiagnostic>)
        ensures
            final(self)@ == old(self)@ + outside_view(list@),
    {
        let ghost before = self@;
        let mut i: usize = 0;
        assert(before + outside_view(list@).take(0) =~= before);
        while i < list.len()
            invariant
                i <= list.len(),
                self@ == before + outside_view(list@).take(i as int),
            decreases list.len() - i,
        {
            let d = list[i];
            self.report(
                d.stable_ptr,
                SemanticDiagnosticKind::Outside { code: d.code, severity: d.severity },
            );
            i += 1;
            assert(self@ =~= before + outside_view(list@).take(i as int));
        }
        assert(outside_view(list@).take(list@.len() as int) =~= outside_view(list@));
    }

    /// Whether no error was reported.
    pub fn is_error_free(&self) -> (res: bool)
        ensures
            res == forall|i: int| 0 <= i < self@.len() ==> !is_error(#[trigger] self@[i]),
    {
        let mut i: usize = 0;
        while i < self.entries.len()
            invariant
                i <= self.entries.len(),
                self@.len() == self.entries@.len(),
                forall|j: int| 0 <= j < i ==> !is_error(#[trigger] self@[j]),
            decreases self.entries.len() - i,
        {
            assert(self@[i as int] == self.entries@[i as int]@);
            match &self.entries[i].kind {
                SemanticDiagnosticKind::Outside { code: _, severity: Severity::Warning } => {},
                _ => {
                    assert(is_error(self@[i as int]));
                    return false;
                },
            }
            i += 1;
        }
        true
    }

    /// Finishes the list.
    pub fn build(self) -> (res: Diagnostics)
        ensures
            res@ == self@,
    {
        Diagnostics { entries: self.entries }
    }
}

/// A diagnostic of another stage as it is passed on.
pub open spec fn passed_on(d: OutsideDiagnostic) -> DiagnosticView {
    SemanticDiagnostic {
        stable_ptr: d.stable_ptr,
        kind: SemanticDiagnosticKind::Outside { code: d.code, severity: d.severity },
    }
}

/// The diagnostics of another stage are passed on one by one, in their order.
pub proof fn lemma_outside_members(list: Seq<OutsideDiagnostic>, d: OutsideDiagnostic)
    ensures
        outside_view(list).len() == list.len(),
        outside_view(list).contains(passed_on(d)) <==> list.contains(d),
{
    let said = passed_on(d);
    if list.contains(d) {
        let i = choose|i: int| 0 <= i < list.len() && list[i] == d;
        assert(outside_view(list)[i] == said);
    }
    if outside_view(list).contains(said) {
        let i = choose|i: int| 0 <= i < list.len() && outside_view(list)[i] == said;
        assert(list[i] == d);
    }
}

} // verus!
