//! The functions of an impl: their declarations and their bodies.

use vstd::prelude::*;

use crate::collections::{
    assoc_extend, copy_ids, has_key, law_last_entries_stay, lemma_concat_members, lookup,
    OrderedHashMap,
};
use crate::db::SemanticGroup;
use crate::declaration::{
    impl_def_resolver_data, impl_def_substitution, is_own_substitution,
    law_own_substitution_is_stable, settled_trait, GenericParamsData,
};
use crate::definition::{lemma_definition_grown, priv_impl_definition_data};
use crate::diagnostics::{
    lemma_outside_members, outside_view, passed_on, skip_diagnostic, DiagnosticAdded,
    DiagnosticView, Diagnostics, Maybe, OutsideDiagnostic, SemanticDiagnostics,
};
use crate::facts::{
    BodyOutcome, EnvironmentId, ExprId, FunctionFacts, ImplicitPrecedence, Inference,
    InlineConfiguration, PatternId, ResolverData, Signature, SignatureView, StatementId, TraitOrImplContext,
};
use crate::ids::{Attribute, FunctionId, ImplFunctionId, SyntaxStablePtrId, TraitFunctionId, TypeId};
use crate::model::{
    FunctionLongId, GenericFunctionId, GenericParam, ImplGenericFunctionId, ImplLongId,
};
use crate::signatures::{
    lemma_validation_grown, settled_type, validate_impl_function_signature, validation_outcome,
    FunctionToValidate, ValidateImplFunctionSignatureParams,
};
use crate::substitution::{GenericSubstitution, SubstitutionView};
use crate::syntax::FunctionWithBody;

verus! {

/// The declaration of a function.
pub struct FunctionDeclarationData {
    pub diagnostics: Diagnostics,
    pub signature: Signature,
    pub generic_params: Vec<GenericParam>,
    pub environment: EnvironmentId,
    pub attributes: Vec<Attribute>,
    pub resolver_data: ResolverData,
    pub inline_config: InlineConfiguration,
    pub implicit_precedence: ImplicitPrecedence,
}

/// The declaration of a function of an impl.
pub struct ImplFunctionDeclarationData {
    pub function_declaration_data: FunctionDeclarationData,
    /// The trait function that the function implements.
    pub trait_function_id: Maybe<TraitFunctionId>,
}

/// The declaration of a function of an impl, with its lists as sequences.
#[verifier::ext_equal]
pub struct FunctionDeclarationView {
    pub diagnostics: Seq<DiagnosticView>,
    pub signature: SignatureView,
    pub generic_params: Seq<GenericParam>,
    pub environment: EnvironmentId,
    pub attributes: Seq<Attribute>,
    pub resolver_data: ResolverData,
    pub inline_config: InlineConfiguration,
    pub implicit_precedence: ImplicitPrecedence,
    pub trait_function_id: Maybe<TraitFunctionId>,
}

impl View for ImplFunctionDeclarationData {
    type V = FunctionDeclarationView;

    open spec fn view(&self) -> FunctionDeclarationView {
        let data = self.function_declaration_data;
        FunctionDeclarationView {
            diagnostics: data.diagnostics@,
            signature: data.signature@,
            generic_params: data.generic_params@,
            environment: data.environment,
            attributes: data.attributes@,
            resolver_data: data.resolver_data,
            inline_config: data.inline_config,
            implicit_precedence: data.implicit_precedence,
            trait_function_id: self.trait_function_id,
        }
    }
}

/// The generic parameters of a function, as inference settled them.
pub open spec fn function_generic_params(f: FunctionFacts) -> Seq<GenericParam> {
    f.generics.inference.spec_rewrite_params(f.generics.generic_params@)
}

/// What is wrong with the generic parameters of a function.
pub open spec fn function_generics_diagnostics(f: FunctionFacts) -> Seq<DiagnosticView> {
    outside_view(f.generics.diagnostics@) + outside_view(f.generics.finalize_diagnostics@)
}

/// The function whose signature is compared with that of the trait.
pub open spec fn function_to_validate(
    impl_function_id: ImplFunctionId,
    f: FunctionFacts,
    syntax: FunctionWithBody,
) -> FunctionToValidate {
    FunctionToValidate {
        impl_function_id,
        signature: f.signature@,
        syntax,
        generics: function_generic_params(f),
        args: f.generics.params_as_args@,
    }
}

/// The declaration of a function of an impl.
pub open spec fn function_declaration_for(
    db: SemanticGroup,
    impl_function_id: ImplFunctionId,
    f: FunctionFacts,
    syntax: FunctionWithBody,
    inline_config: InlineConfiguration,
    impl_substitution: SubstitutionView,
) -> FunctionDeclarationView {
    let validation = validation_outcome(
        db,
        f.inference,
        function_to_validate(impl_function_id, f, syntax),
        impl_substitution,
    );
    FunctionDeclarationView {
        diagnostics: function_generics_diagnostics(f) + outside_view(f.feature_diagnostics@)
            + outside_view(f.signature_diagnostics@) + outside_view(f.precedence_diagnostics@)
            + outside_view(f.finalize_diagnostics@) + validation.diagnostics + outside_view(
            f.inline_diagnostics@,
        ) + outside_view(f.inline_always_diagnostics@),
        signature: f.inference.spec_rewrite_signature(f.signature@),
        generic_params: f.inference.spec_rewrite_params(function_generic_params(f)),
        environment: f.environment,
        attributes: f.attributes@,
        resolver_data: ResolverData {
            id: f.resolver_id,
            trait_or_impl_ctx: TraitOrImplContext::Impl(impl_function_id.impl_def_id),
        },
        inline_config,
        implicit_precedence: f.implicit_precedence,
        trait_function_id: validation.result,
    }
}

/// The declaration of a function of an impl, where the impl has a definition.
pub open spec fn function_declaration(
    db: SemanticGroup,
    impl_function_id: ImplFunctionId,
    impl_substitution: SubstitutionView,
) -> Maybe<FunctionDeclarationView> {
    match (
        db.spec_definition(impl_function_id.impl_def_id),
        lookup(db.facts.functions@, impl_function_id),
    ) {
        (Ok(d), Some(f)) => match f.inline_config {
            Ok(inline_config) => Ok(
                function_declaration_for(
                    db,
                    impl_function_id,
                    f,
                    lookup(d.functions, impl_function_id)->0,
                    inline_config,
                    impl_substitution,
                ),
            ),
            Err(e) => Err(e),
        },
        _ => Err(DiagnosticAdded),
    }
}

impl SemanticGroup {
    /// Whether an impl has a function, as far as it has a definition.
    pub open spec fn has_function(self, impl_function_id: ImplFunctionId) -> bool {
        &&& self.definable(impl_function_id.impl_def_id)
        &&& self.spec_definition(impl_function_id.impl_def_id) matches Ok(d) ==> has_key(
            d.functions,
            impl_function_id,
        )
    }

    /// The declaration of a function of an impl.
    pub open spec fn spec_function_declaration(self, impl_function_id: ImplFunctionId) -> Maybe<
        FunctionDeclarationView,
    > {
        function_declaration(
            self,
            impl_function_id,
            self.own_substitution(impl_function_id.impl_def_id),
        )
    }

    /// The facts about a function, where its impl has a definition.
    pub open spec fn spec_function_facts(self, impl_function_id: ImplFunctionId) -> Maybe<
        FunctionFacts,
    > {
        match (
            self.spec_definition(impl_function_id.impl_def_id),
            lookup(self.facts.functions@, impl_function_id),
        ) {
            (Ok(_), Some(f)) => Ok(f),
            _ => Err(DiagnosticAdded),
        }
    }
}

// --- Selectors ---

/// What is wrong with the declaration of a function.
pub fn impl_function_declaration_diagnostics(
    db: &mut SemanticGroup,
    impl_function_id: ImplFunctionId,
) -> (res: Diagnostics)
    requires
        old(db).wf(),
        old(db).has_function(impl_function_id),
    ensures
        final(db).wf(),
        final(db).grown_from(*old(db)),
        res@ == match final(db).spec_function_declaration(impl_function_id) {
            Ok(d) => d.diagnostics,
            Err(_) => seq![],
        },
{
    match priv_impl_function_declaration_data(db, impl_function_id) {
        Ok(data) => data.function_declaration_data.diagnostics,
        Err(_) => Diagnostics::new(),
    }
}

/// The signature of a function.
pub fn impl_function_signature(db: &mut SemanticGroup, impl_function_id: ImplFunctionId) -> (res:
    Maybe<Signature>)
    requires
        old(db).wf(),
        old(db).has_function(impl_function_id),
    ensures
        final(db).wf(),
        final(db).grown_from(*old(db)),
        match res {
            Ok(signature) => final(db).spec_function_declaration(impl_function_id) matches Ok(d)
                && signature@ == d.signature,
            Err(_) => final(db).spec_function_declaration(impl_function_id) is Err,
        },
{
    match priv_impl_function_declaration_data(db, impl_function_id) {
        Ok(data) => Ok(data.function_declaration_data.signature),
        Err(e) => Err(e),
    }
}

/// The generic parameters of a function.
pub fn impl_function_generic_params(db: &SemanticGroup, impl_function_id: ImplFunctionId) -> (res:
    Maybe<Vec<GenericParam>>)
    requires
        db.wf(),
        db.has_function(impl_function_id),
    ensures
        match res {
            Ok(params) => db.spec_function_facts(impl_function_id) matches Ok(f) && params@
                == function_generic_params(f),
            Err(_) => db.spec_function_facts(impl_function_id) is Err,
        },
{
    match priv_impl_function_generic_params_data(db, impl_function_id) {
        Ok(data) => Ok(data.generic_params),
        Err(e) => Err(e),
    }
}

/// The generic parameters of a function, with what is wrong with them.
pub fn priv_impl_function_generic_params_data(
    db: &SemanticGroup,
    impl_function_id: ImplFunctionId,
) -> (res: Maybe<GenericParamsData>)
    requires
        db.wf(),
        db.has_function(impl_function_id),
    ensures
        match res {
            Ok(data) => {
                &&& db.spec_function_facts(impl_function_id) matches Ok(f)
                    && data.generic_params@ == function_generic_params(f) && data.diagnostics@
                    == function_generics_diagnostics(f) && data.resolver_data == ResolverData {
                    id: f.generics.resolver_id,
                    trait_or_impl_ctx: TraitOrImplContext::Impl(impl_function_id.impl_def_id),
                }
                &&& db.sizes().has_params(data.generic_params@)
            },
            Err(_) => db.spec_function_facts(impl_function_id) is Err,
        },
{
    proof {
        reveal(crate::db::SemanticFacts::valid);
    }
    let mut diagnostics = SemanticDiagnostics::new();
    let impl_def_id = impl_function_id.impl_def_id;
    if let Err(e) = priv_impl_definition_data(db, impl_def_id) {
        return Err(e);
    }
    let resolver_data = match impl_def_resolver_data(db, impl_def_id) {
        Ok(resolver_data) => resolver_data,
        Err(e) => return Err(e),
    };
    let facts = match db.facts.functions.get(&impl_function_id) {
        Some(facts) => facts,
        None => return Err(skip_diagnostic()),
    };
    diagnostics.extend_outside(&facts.generics.diagnostics);
    diagnostics.extend_outside(&facts.generics.finalize_diagnostics);
    assert(diagnostics@ =~= function_generics_diagnostics(*facts));
    proof {
        assert(facts.valid(db.sizes()));
        facts.generics.inference.lemma_rewrite_valid(db.sizes());
    }
    Ok(
        GenericParamsData {
            generic_params: facts.generics.inference.rewrite_params(
                &facts.generics.generic_params,
            ),
            diagnostics: diagnostics.build(),
            resolver_data: ResolverData {
                id: facts.generics.resolver_id,
                trait_or_impl_ctx: resolver_data.trait_or_impl_ctx,
            },
        },
    )
}

/// The attributes of a function.
pub fn impl_function_attributes(db: &mut SemanticGroup, impl_function_id: ImplFunctionId) -> (res:
    Maybe<Vec<Attribute>>)
    requires
        old(db).wf(),
        old(db).has_function(impl_function_id),
    ensures
        final(db).wf(),
        final(db).grown_from(*old(db)),
        match res {
            Ok(attributes) => final(db).spec_function_declaration(impl_function_id) matches Ok(d)
                && attributes@ == d.attributes,
            Err(_) => final(db).spec_function_declaration(impl_function_id) is Err,
        },
{
    match priv_impl_function_declaration_data(db, impl_function_id) {
        Ok(data) => Ok(data.function_declaration_data.attributes),
        Err(e) => Err(e),
    }
}

/// What name resolution keeps of the declaration of a function.
pub fn impl_function_resolver_data(
    db: &mut SemanticGroup,
    impl_function_id: ImplFunctionId,
) -> (res: Maybe<ResolverData>)
    requires
        old(db).wf(),
        old(db).has_function(impl_function_id),
    ensures
        final(db).wf(),
        final(db).grown_from(*old(db)),
        res == match final(db).spec_function_declaration(impl_function_id) {
            Ok(d) => Ok(d.resolver_data),
            Err(e) => Err(e),
        },
{
    match priv_impl_function_declaration_data(db, impl_function_id) {
        Ok(data) => Ok(data.function_declaration_data.resolver_data),
        Err(e) => Err(e),
    }
}

/// How calls of a function are inlined.
pub fn impl_function_declaration_inline_config(
    db: &mut SemanticGroup,
    impl_function_id: ImplFunctionId,
) -> (res: Maybe<InlineConfiguration>)
    requires
        old(db).wf(),
        old(db).has_function(impl_function_id),
    ensures
        final(db).wf(),
        final(db).grown_from(*old(db)),
        res == match final(db).spec_function_declaration(impl_function_id) {
            Ok(d) => Ok(d.inline_config),
            Err(e) => Err(e),
        },
{
    match priv_impl_function_declaration_data(db, impl_function_id) {
        Ok(data) => Ok(data.function_declaration_data.inline_config),
        Err(e) => Err(e),
    }
}

/// The order of the implicit parameters of a function.
pub fn impl_function_declaration_implicit_precedence(
    db: &mut SemanticGroup,
    impl_function_id: ImplFunctionId,
) -> (res: Maybe<ImplicitPrecedence>)
    requires
        old(db).wf(),
        old(db).has_function(impl_function_id),
    ensures
        final(db).wf(),
        final(db).grown_from(*old(db)),
        res == match final(db).spec_function_declaration(impl_function_id) {
            Ok(d) => Ok(d.implicit_precedence),
            Err(e) => Err(e),
        },
{
    match priv_impl_function_declaration_data(db, impl_function_id) {
        Ok(data) => Ok(data.function_declaration_data.implicit_precedence),
        Err(e) => Err(e),
    }
}

/// The implicit parameters of a function.
pub fn impl_function_declaration_implicits(
    db: &mut SemanticGroup,
    impl_function_id: ImplFunctionId,
) -> (res: Maybe<Vec<TypeId>>)
    requires
        old(db).wf(),
        old(db).has_function(impl_function_id),
    ensures
        final(db).wf(),
        final(db).grown_from(*old(db)),
        match res {
            Ok(implicits) => final(db).spec_function_declaration(impl_function_id) matches Ok(d)
                && implicits@ == d.signature.implicits,
            Err(_) => final(db).spec_function_declaration(impl_function_id) is Err,
        },
{
    match priv_impl_function_declaration_data(db, impl_function_id) {
        Ok(data) => Ok(data.function_declaration_data.signature.implicits),
        Err(e) => Err(e),
    }
}

/// The trait function that a function implements.
pub fn impl_function_trait_function(
    db: &mut SemanticGroup,
    impl_function_id: ImplFunctionId,
) -> (res: Maybe<TraitFunctionId>)
    requires
        old(db).wf(),
        old(db).has_function(impl_function_id),
    ensures
        final(db).wf(),
        final(db).grown_from(*old(db)),
        res == match final(db).spec_function_declaration(impl_function_id) {
            Ok(d) => d.trait_function_id,
            Err(e) => Err(e),
        },
{
    match priv_impl_function_declaration_data(db, impl_function_id) {
        Ok(data) => data.trait_function_id,
        Err(e) => Err(e),
    }
}

// --- Computation ---

/// The declaration of a function, given the substitution of its impl.
fn declare_function(
    db: &SemanticGroup,
    impl_function_id: ImplFunctionId,
    impl_substitution: &GenericSubstitution,
) -> (res: Maybe<ImplFunctionDeclarationData>)
    requires
        db.wf(),
        db.has_function(impl_function_id),
    ensures
        match res {
            Ok(data) => function_declaration(*db, impl_function_id, impl_substitution@) == Ok::<
                _,
                DiagnosticAdded,
            >(data@),
            Err(_) => function_declaration(*db, impl_function_id, impl_substitution@) is Err,
        },
{
    proof {
        reveal(crate::db::SemanticFacts::valid);
    }
    let mut diagnostics = SemanticDiagnostics::new();
    let impl_def_id = impl_function_id.impl_def_id;
    let data = match priv_impl_definition_data(db, impl_def_id) {
        Ok(data) => data,
        Err(e) => return Err(e),
    };
    let function_syntax = match data.function_asts.get(&impl_function_id) {
        Some(syntax) => syntax,
        None => return Err(skip_diagnostic()),
    };
    let generic_params_data = match priv_impl_function_generic_params_data(db, impl_function_id) {
        Ok(data) => data,
        Err(e) => return Err(e),
    };
    let facts = match db.facts.functions.get(&impl_function_id) {
        Some(facts) => facts,
        None => return Err(skip_diagnostic()),
    };
    proof {
        assert(facts.valid(db.sizes()));
    }
    let generic_params = generic_params_data.generic_params;
    diagnostics.extend(generic_params_data.diagnostics);
    diagnostics.extend_outside(&facts.feature_diagnostics);
    diagnostics.extend_outside(&facts.signature_diagnostics);
    diagnostics.extend_outside(&facts.precedence_diagnostics);
    // Check fully resolved.
    diagnostics.extend_outside(&facts.finalize_diagnostics);
    let function = ValidateImplFunctionSignatureParams {
        impl_function_id,
        signature: &facts.signature,
        impl_function_syntax: function_syntax,
        impl_func_generics: &generic_params,
        impl_func_args: &facts.generics.params_as_args,
    };
    let trait_function_id = validate_impl_function_signature(
        db,
        &mut diagnostics,
        &facts.inference,
        function,
        impl_substitution,
    );
    diagnostics.extend_outside(&facts.inline_diagnostics);
    let inline_config = match facts.inline_config {
        Ok(inline_config) => inline_config,
        Err(e) => return Err(e),
    };
    diagnostics.extend_outside(&facts.inline_always_diagnostics);
    let res = ImplFunctionDeclarationData {
        function_declaration_data: FunctionDeclarationData {
            diagnostics: diagnostics.build(),
            signature: facts.inference.rewrite_signature(&facts.signature),
            generic_params: facts.inference.rewrite_params(&generic_params),
            environment: facts.environment,
            attributes: copy_ids(&facts.attributes),
            resolver_data: ResolverData {
                id: facts.resolver_id,
                trait_or_impl_ctx: generic_params_data.resolver_data.trait_or_impl_ctx,
            },
            inline_config,
            implicit_precedence: facts.implicit_precedence,
        },
        trait_function_id,
    };
    assert(res@ =~= function_declaration(*db, impl_function_id, impl_substitution@)->Ok_0);
    Ok(res)
}

/// The declaration of a function of an impl.
pub fn priv_impl_function_declaration_data(
    db: &mut SemanticGroup,
    impl_function_id: ImplFunctionId,
) -> (res: Maybe<ImplFunctionDeclarationData>)
    requires
        old(db).wf(),
        old(db).has_function(impl_function_id),
    ensures
        final(db).wf(),
        final(db).grown_from(*old(db)),
        match res {
            Ok(data) => final(db).spec_function_declaration(impl_function_id) == Ok::<
                _,
                DiagnosticAdded,
            >(data@) && is_own_substitution(
                *final(db),
                impl_function_id.impl_def_id,
                final(db).own_substitution(impl_function_id.impl_def_id),
            ),
            Err(_) => final(db).spec_function_declaration(impl_function_id) is Err,
        },
{
    let ghost before = *db;
    let impl_def_id = impl_function_id.impl_def_id;
    let substitution = match impl_def_substitution(db, impl_def_id) {
        Ok(substitution) => substitution,
        Err(e) => return Err(e),
    };
    proof {
        lemma_definition_grown(before, *db, impl_def_id);
    }
    declare_function(db, impl_function_id, &substitution)
}

/// The declaration of a function stays as more values are interned, where its impl keeps its
/// substitution.
pub proof fn lemma_function_declaration_grown(
    before: SemanticGroup,
    after: SemanticGroup,
    impl_function_id: ImplFunctionId,
)
    requires
        before.wf(),
        after.grown_from(before),
        before.has_function(impl_function_id),
        after.own_substitution(impl_function_id.impl_def_id) == before.own_substitution(
            impl_function_id.impl_def_id,
        ),
    ensures
        after.has_function(impl_function_id),
        after.spec_function_facts(impl_function_id) == before.spec_function_facts(impl_function_id),
        after.spec_function_declaration(impl_function_id) == before.spec_function_declaration(
            impl_function_id,
        ),
{
    reveal(crate::db::SemanticFacts::valid);
    let impl_def_id = impl_function_id.impl_def_id;
    let s = before.own_substitution(impl_def_id);
    lemma_definition_grown(before, after, impl_def_id);
    match (before.spec_definition(impl_def_id), lookup(before.facts.functions@, impl_function_id)) {
        (Ok(d), Some(f)) => {
            assert(f.valid(before.sizes()));
            lemma_validation_grown(
                before,
                after,
                f.inference,
                function_to_validate(impl_function_id, f, lookup(d.functions, impl_function_id)->0),
                s,
            );
        },
        _ => {},
    }
}

/// The declaration of a function stays as more values are interned.
pub proof fn law_function_declaration_is_stable(
    before: SemanticGroup,
    after: SemanticGroup,
    impl_function_id: ImplFunctionId,
)
    requires
        before.wf(),
        after.wf(),
        after.grown_from(before),
        before.has_function(impl_function_id),
        is_own_substitution(
            before,
            impl_function_id.impl_def_id,
            before.own_substitution(impl_function_id.impl_def_id),
        ),
    ensures
        after.has_function(impl_function_id),
        after.spec_function_facts(impl_function_id) == before.spec_function_facts(impl_function_id),
        after.spec_function_declaration(impl_function_id) == before.spec_function_declaration(
            impl_function_id,
        ),
        is_own_substitution(
            after,
            impl_function_id.impl_def_id,
            after.own_substitution(impl_function_id.impl_def_id),
        ),
{
    let impl_def_id = impl_function_id.impl_def_id;
    let s = before.own_substitution(impl_def_id);
    law_own_substitution_is_stable(before, after, impl_def_id, s);
    lemma_function_declaration_grown(before, after, impl_function_id);
}

// --- Bodies ---

/// The body of a function.
pub struct FunctionBody {
    /// The expressions, each with its place.
    pub exprs: Vec<(SyntaxStablePtrId, ExprId)>,
    /// The patterns, each with its place.
    pub patterns: Vec<(SyntaxStablePtrId, PatternId)>,
    /// The statements.
    pub statements: Vec<StatementId>,
    /// The root expression.
    pub body_expr: ExprId,
}

/// What is known of a function from its body.
pub struct FunctionBodyData {
    pub diagnostics: Diagnostics,
    /// The expressions by their places.
    pub expr_lookup: OrderedHashMap<SyntaxStablePtrId, ExprId>,
    /// The patterns by their places.
    pub pattern_lookup: OrderedHashMap<SyntaxStablePtrId, PatternId>,
    pub resolver_data: ResolverData,
    pub body: FunctionBody,
    /// The function itself, as its body refers to it.
    pub function_id: Maybe<FunctionId>,
}

/// The function as its body refers to it: the trait function that it implements, provided by the
/// impl with its own parameters as arguments.
pub open spec fn is_function_in_body(
    db: SemanticGroup,
    impl_function_id: ImplFunctionId,
    function_id: Maybe<FunctionId>,
) -> bool {
    let d = db.spec_function_declaration(impl_function_id)->Ok_0;
    let f = db.spec_function_facts(impl_function_id)->Ok_0;
    match (d.trait_function_id, f.own_args) {
        (Ok(function), Ok(args)) => function_id matches Ok(id) && id.0
            < db.interned@.functions.len() && db.interned@.functions[id.0 as int]
            == (FunctionLongId {
            generic_function: GenericFunctionId::Impl(
                ImplGenericFunctionId {
                    impl_id: db.own_substitution(impl_function_id.impl_def_id).self_impl->0,
                    function,
                },
            ),
            generic_args: args@,
        }),
        _ => function_id is Err,
    }
}

/// The body data of a function.
pub open spec fn is_body_data(
    db: SemanticGroup,
    impl_function_id: ImplFunctionId,
    outcome: BodyOutcome,
    data: FunctionBodyData,
) -> bool {
    &&& data.diagnostics@ == outside_view(outcome.diagnostics@)
    &&& data.expr_lookup@ == assoc_extend(Seq::empty(), outcome.exprs@)
    &&& data.pattern_lookup@ == assoc_extend(Seq::empty(), outcome.patterns@)
    &&& data.resolver_data == ResolverData {
        id: outcome.resolver_id,
        trait_or_impl_ctx: TraitOrImplContext::Impl(impl_function_id.impl_def_id),
    }
    &&& data.body.exprs@ == outcome.exprs@
    &&& data.body.patterns@ == outcome.patterns@
    &&& data.body.statements@ == outcome.statements@
    &&& data.body.body_expr == outcome.body_expr
    &&& is_function_in_body(db, impl_function_id, data.function_id)
}

impl SemanticGroup {
    /// How the body of a function is computed, where the function has a declaration.
    pub open spec fn spec_body_outcome(self, impl_function_id: ImplFunctionId) -> Maybe<
        BodyOutcome,
    > {
        match (
            self.spec_function_declaration(impl_function_id),
            self.spec_function_facts(impl_function_id),
        ) {
            (Ok(_), Ok(f)) => f.body,
            _ => Err(DiagnosticAdded),
        }
    }
}

/// What is wrong with the body of a function.
pub fn impl_function_body_diagnostics(
    db: &mut SemanticGroup,
    impl_function_id: ImplFunctionId,
) -> (res: Diagnostics)
    requires
        old(db).wf(),
        old(db).has_function(impl_function_id),
    ensures
        final(db).wf(),
        final(db).grown_from(*old(db)),
        res@ == match final(db).spec_body_outcome(impl_function_id) {
            Ok(outcome) => outside_view(outcome.diagnostics@),
            Err(_) => seq![],
        },
{
    match priv_impl_function_body_data(db, impl_function_id) {
        Ok(data) => data.diagnostics,
        Err(_) => Diagnostics::new(),
    }
}

/// The body of a function.
pub fn impl_function_body(db: &mut SemanticGroup, impl_function_id: ImplFunctionId) -> (res: Maybe<
    FunctionBody,
>)
    requires
        old(db).wf(),
        old(db).has_function(impl_function_id),
    ensures
        final(db).wf(),
        final(db).grown_from(*old(db)),
        match res {
            Ok(body) => final(db).spec_body_outcome(impl_function_id) matches Ok(outcome)
                && body.exprs@ == outcome.exprs@ && body.patterns@ == outcome.patterns@
                && body.statements@ == outcome.statements@ && body.body_expr == outcome.body_expr,
            Err(_) => final(db).spec_body_outcome(impl_function_id) is Err,
        },
{
    match priv_impl_function_body_data(db, impl_function_id) {
        Ok(data) => Ok(data.body),
        Err(e) => Err(e),
    }
}

/// What name resolution keeps of the body of a function.
pub fn impl_function_body_resolver_data(
    db: &mut SemanticGroup,
    impl_function_id: ImplFunctionId,
) -> (res: Maybe<ResolverData>)
    requires
        old(db).wf(),
        old(db).has_function(impl_function_id),
    ensures
        final(db).wf(),
        final(db).grown_from(*old(db)),
        res == match final(db).spec_body_outcome(impl_function_id) {
            Ok(outcome) => Ok(
                ResolverData {
                    id: outcome.resolver_id,
                    trait_or_impl_ctx: TraitOrImplContext::Impl(impl_function_id.impl_def_id),
                },
            ),
            Err(_) => Err(DiagnosticAdded),
        },
{
    match priv_impl_function_body_data(db, impl_function_id) {
        Ok(data) => Ok(data.resolver_data),
        Err(e) => Err(e),
    }
}

/// The function as its body refers to it.
fn function_in_body(
    db: &mut SemanticGroup,
    impl_function_id: ImplFunctionId,
    trait_function_id: Maybe<TraitFunctionId>,
) -> (res: Maybe<FunctionId>)
    requires
        old(db).wf(),
        old(db).has_function(impl_function_id),
        old(db).spec_function_declaration(impl_function_id) matches Ok(d) && d.trait_function_id
            == trait_function_id,
        is_own_substitution(
            *old(db),
            impl_function_id.impl_def_id,
            old(db).own_substitution(impl_function_id.impl_def_id),
        ),
    ensures
        final(db).wf(),
        final(db).grown_from(*old(db)),
        is_function_in_body(*final(db), impl_function_id, res),
        final(db).spec_function_declaration(impl_function_id) == old(db).spec_function_declaration(
            impl_function_id,
        ),
        final(db).spec_function_facts(impl_function_id) == old(db).spec_function_facts(
            impl_function_id,
        ),
{
    proof {
        reveal(crate::db::SemanticFacts::valid);
    }
    let ghost before = *db;
    let impl_def_id = impl_function_id.impl_def_id;
    let function = match trait_function_id {
        Ok(function) => function,
        Err(e) => return Err(e),
    };
    let own_args = match db.facts.functions.get(&impl_function_id) {
        Some(facts) => match &facts.own_args {
            Ok(args) => copy_ids(args),
            Err(e) => return Err(*e),
        },
        None => return Err(skip_diagnostic()),
    };
    let substitution = match impl_def_substitution(db, impl_def_id) {
        Ok(substitution) => substitution,
        Err(e) => return Err(e),
    };
    let impl_id = match substitution.self_impl {
        Some(impl_id) => impl_id,
        None => return Err(skip_diagnostic()),
    };
    let ghost middle = *db;
    proof {
        law_function_declaration_is_stable(before, middle, impl_function_id);
    }
    let generic_function = GenericFunctionId::Impl(ImplGenericFunctionId { impl_id, function });
    let id = db.intern_function(FunctionLongId { generic_function, generic_args: own_args });
    proof {
        law_function_declaration_is_stable(middle, *db, impl_function_id);
        law_own_substitution_is_stable(middle, *db, impl_def_id, substitution@);
    }
    Ok(id)
}

/// Stores entries one by one; where a place occurs again, the later entry stays.
fn by_place<V: Copy>(entries: &Vec<(SyntaxStablePtrId, V)>) -> (res: OrderedHashMap<
    SyntaxStablePtrId,
    V,
>)
    ensures
        res@ == assoc_extend(Seq::empty(), entries@),
{
    let mut res: OrderedHashMap<SyntaxStablePtrId, V> = OrderedHashMap::new();
    let mut i: usize = 0;
    assert(entries@.take(0) =~= Seq::empty());
    while i < entries.len()
        invariant
            i <= entries.len(),
            res@ == assoc_extend(Seq::empty(), entries@.take(i as int)),
        decreases entries.len() - i,
    {
        assert(entries@.take(i + 1).drop_last() =~= entries@.take(i as int));
        let (place, entry) = entries[i];
        res.insert(place, entry);
        i += 1;
    }
    assert(entries@.take(entries@.len() as int) =~= entries@);
    res
}

/// The body data of a function of an impl.
pub fn priv_impl_function_body_data(
    db: &mut SemanticGroup,
    impl_function_id: ImplFunctionId,
) -> (res: Maybe<FunctionBodyData>)
    requires
        old(db).wf(),
        old(db).has_function(impl_function_id),
    ensures
        final(db).wf(),
        final(db).grown_from(*old(db)),
        match res {
            Ok(data) => final(db).spec_body_outcome(impl_function_id) matches Ok(outcome)
                && is_body_data(*final(db), impl_function_id, outcome, data),
            Err(_) => final(db).spec_body_outcome(impl_function_id) is Err,
        },
{
    let ghost before = *db;
    let mut diagnostics = SemanticDiagnostics::new();
    // Compute declaration semantic.
    let declaration = match priv_impl_function_declaration_data(db, impl_function_id) {
        Ok(declaration) => declaration,
        Err(e) => return Err(e),
    };
    let parent_resolver_data = declaration.function_declaration_data.resolver_data;
    proof {
        lemma_definition_grown(before, *db, impl_function_id.impl_def_id);
    }
    let function_id = function_in_body(db, impl_function_id, declaration.trait_function_id);
    // Compute body semantic expr.
    let outcome = match db.facts.functions.get(&impl_function_id) {
        Some(facts) => match &facts.body {
            Ok(outcome) => outcome,
            Err(e) => return Err(*e),
        },
        None => return Err(skip_diagnostic()),
    };
    diagnostics.extend_outside(&outcome.diagnostics);
    let data = FunctionBodyData {
        diagnostics: diagnostics.build(),
        expr_lookup: by_place(&outcome.exprs),
        pattern_lookup: by_place(&outcome.patterns),
        resolver_data: ResolverData {
            id: outcome.resolver_id,
            trait_or_impl_ctx: parent_resolver_data.trait_or_impl_ctx,
        },
        body: FunctionBody {
            exprs: copy_ids(&outcome.exprs),
            patterns: copy_ids(&outcome.patterns),
            statements: copy_ids(&outcome.statements),
            body_expr: outcome.body_expr,
        },
        function_id,
    };
    assert(data.diagnostics@ =~= outside_view(outcome.diagnostics@));
    Ok(data)
}

// --- Laws ---

/// Whether a diagnostic is among those of other stages about a function.
pub open spec fn said_of_declaration(f: FunctionFacts, d: OutsideDiagnostic) -> bool {
    ||| f.generics.diagnostics@.contains(d)
    ||| f.generics.finalize_diagnostics@.contains(d)
    ||| f.feature_diagnostics@.contains(d)
    ||| f.signature_diagnostics@.contains(d)
    ||| f.precedence_diagnostics@.contains(d)
    ||| f.finalize_diagnostics@.contains(d)
    ||| f.inline_diagnostics@.contains(d)
    ||| f.inline_always_diagnostics@.contains(d)
}

/// A function is declared as it is recorded, with the types of its signature settled by inference.
/// It implements what the comparison of its recorded signature with the trait says, and what that
/// comparison reports is reported of it, together with all that other stages say of it.
pub proof fn law_functions_are_declared_as_recorded(
    db: SemanticGroup,
    id: ImplFunctionId,
    f: FunctionFacts,
    ast: FunctionWithBody,
)
    requires
        db.spec_definition(id.impl_def_id) matches Ok(d) && lookup(d.functions, id) == Some(ast),
        lookup(db.facts.functions@, id) == Some(f),
    ensures
        f.inline_config is Err ==> db.spec_function_declaration(id) is Err,
        f.inline_config matches Ok(config) ==> (db.spec_function_declaration(id) matches Ok(data)
            && {
            &&& data.inline_config == config
            &&& data.environment == f.environment
            &&& data.attributes == f.attributes@
            &&& data.implicit_precedence == f.implicit_precedence
            &&& data.resolver_data.id == f.resolver_id
            &&& data.resolver_data.trait_or_impl_ctx == TraitOrImplContext::Impl(id.impl_def_id)
            &&& data.signature.panicable == f.signature@.panicable
            &&& data.signature.is_const == f.signature@.is_const
            &&& data.signature.return_type == settled_type(f.inference, f.signature@.return_type)
            &&& data.signature.params.len() == f.signature@.params.len()
            &&& forall|i: int|
                0 <= i < data.signature.params.len() ==> (#[trigger] data.signature.params[i]).ty
                    == settled_type(f.inference, f.signature@.params[i].ty)
                    && data.signature.params[i].name == f.signature@.params[i].name
                    && data.signature.params[i].mutability == f.signature@.params[i].mutability
            &&& data.signature.implicits.len() == f.signature@.implicits.len()
            &&& forall|i: int|
                0 <= i < data.signature.implicits.len() ==> #[trigger] data.signature.implicits[i]
                    == settled_type(f.inference, f.signature@.implicits[i])
            &&& data.generic_params.len() == f.generics.generic_params@.len()
            &&& forall|i: int|
                0 <= i < data.generic_params.len() ==> (#[trigger] data.generic_params[i]).spec_id()
                    == f.generics.generic_params@[i].spec_id()
        }),
{
    if f.inline_config is Ok {
        let data = db.spec_function_declaration(id)->Ok_0;
        assert forall|i: int| 0 <= i < data.generic_params.len() implies (
        #[trigger] data.generic_params[i]).spec_id() == f.generics.generic_params@[i].spec_id() by {
            assert(function_generic_params(f)[i].spec_id()
                == f.generics.generic_params@[i].spec_id());
        }
    }
}

/// The recorded signature of a function is what is compared with the trait, with the recorded
/// arguments of the function in its own body and its generic parameters settled by inference. What
/// the comparison reports is reported of the declaration, together with all that other stages say of
/// the function, and nothing else is.
pub proof fn law_declarations_report_all_that_is_said(
    db: SemanticGroup,
    id: ImplFunctionId,
    f: FunctionFacts,
    ast: FunctionWithBody,
    x: DiagnosticView,
)
    requires
        db.spec_definition(id.impl_def_id) matches Ok(d) && lookup(d.functions, id) == Some(ast),
        lookup(db.facts.functions@, id) == Some(f),
        f.inline_config is Ok,
    ensures
        db.spec_function_declaration(id) matches Ok(data) && exists|function: FunctionToValidate|
            {
                let validation = #[trigger] validation_outcome(
                    db,
                    f.inference,
                    function,
                    db.own_substitution(id.impl_def_id),
                );
                &&& function.impl_function_id == id
                &&& function.signature == f.signature@
                &&& function.syntax == ast
                &&& function.args == f.generics.params_as_args@
                &&& function.generics.len() == f.generics.generic_params@.len()
                &&& forall|i: int|
                    0 <= i < function.generics.len() ==> settles_param(
                        f.generics.inference,
                        f.generics.generic_params@[i],
                        #[trigger] function.generics[i],
                    )
                &&& data.trait_function_id == validation.result
                &&& data.diagnostics.contains(x) <==> (validation.diagnostics.contains(x) || exists|
                    d: OutsideDiagnostic,
                |
                    said_of_declaration(f, d) && x == #[trigger] passed_on(d))
            },
{
    let data = db.spec_function_declaration(id)->Ok_0;
    let function = function_to_validate(id, f, ast);
    let validation = validation_outcome(
        db,
        f.inference,
        function,
        db.own_substitution(id.impl_def_id),
    );
    let a = outside_view(f.generics.diagnostics@);
    let b = outside_view(f.generics.finalize_diagnostics@);
    let c = outside_view(f.feature_diagnostics@);
    let d = outside_view(f.signature_diagnostics@);
    let e = outside_view(f.precedence_diagnostics@);
    let g = outside_view(f.finalize_diagnostics@);
    let h = validation.diagnostics;
    let k = outside_view(f.inline_diagnostics@);
    let l = outside_view(f.inline_always_diagnostics@);
    assert(data.diagnostics == (a + b) + c + d + e + g + h + k + l);
    lemma_concat_members(a, b, x);
    lemma_concat_members(a + b, c, x);
    lemma_concat_members(a + b + c, d, x);
    lemma_concat_members(a + b + c + d, e, x);
    lemma_concat_members(a + b + c + d + e, g, x);
    lemma_concat_members(a + b + c + d + e + g, h, x);
    lemma_concat_members(a + b + c + d + e + g + h, k, x);
    lemma_concat_members(a + b + c + d + e + g + h + k, l, x);
    assert forall|y: OutsideDiagnostic|
        said_of_declaration(f, y) && x == #[trigger] passed_on(y) implies data.diagnostics.contains(
        x,
    ) by {
        lemma_outside_members(f.generics.diagnostics@, y);
        lemma_outside_members(f.generics.finalize_diagnostics@, y);
        lemma_outside_members(f.feature_diagnostics@, y);
        lemma_outside_members(f.signature_diagnostics@, y);
        lemma_outside_members(f.precedence_diagnostics@, y);
        lemma_outside_members(f.finalize_diagnostics@, y);
        lemma_outside_members(f.inline_diagnostics@, y);
        lemma_outside_members(f.inline_always_diagnostics@, y);
    }
    if data.diagnostics.contains(x) && !h.contains(x) {
        lemma_passed_on(f.generics.diagnostics@, x);
        lemma_passed_on(f.generics.finalize_diagnostics@, x);
        lemma_passed_on(f.feature_diagnostics@, x);
        lemma_passed_on(f.signature_diagnostics@, x);
        lemma_passed_on(f.precedence_diagnostics@, x);
        lemma_passed_on(f.finalize_diagnostics@, x);
        lemma_passed_on(f.inline_diagnostics@, x);
        lemma_passed_on(f.inline_always_diagnostics@, x);
    }
}

/// What is passed on comes from another stage.
proof fn lemma_passed_on(list: Seq<OutsideDiagnostic>, x: DiagnosticView)
    ensures
        outside_view(list).contains(x) ==> exists|d: OutsideDiagnostic|
            list.contains(d) && x == #[trigger] passed_on(d),
{
    if outside_view(list).contains(x) {
        let i = choose|i: int| 0 <= i < list.len() && outside_view(list)[i] == x;
        assert(list.contains(list[i]) && x == passed_on(list[i]));
    }
}

/// Whether a generic parameter is another as inference settles it: a parameter keeps its name, and
/// the type of a constant and the trait of an impl are settled.
pub open spec fn settles_param(
    inference: Inference,
    before: GenericParam,
    after: GenericParam,
) -> bool {
    match (before, after) {
        (GenericParam::Type(p), GenericParam::Type(q)) => p == q,
        (GenericParam::Const(p), GenericParam::Const(q)) => p.id == q.id && q.ty == settled_type(
            inference,
            p.ty,
        ),
        (GenericParam::Impl(p), GenericParam::Impl(q)) => p.id == q.id && match p.concrete_trait {
            Ok(t) => q.concrete_trait == Ok::<_, DiagnosticAdded>(settled_trait(inference, t)),
            Err(_) => q.concrete_trait is Err,
        },
        (GenericParam::NegImpl(p), GenericParam::NegImpl(q)) => p.id == q.id
            && match p.concrete_trait {
            Ok(t) => q.concrete_trait == Ok::<_, DiagnosticAdded>(settled_trait(inference, t)),
            Err(_) => q.concrete_trait is Err,
        },
        _ => false,
    }
}

/// The body of a function is kept as it is recorded: all its expressions, patterns and statements,
/// and by each place the last expression and the last pattern that stand there.
pub proof fn law_bodies_are_kept_as_recorded(
    db: SemanticGroup,
    id: ImplFunctionId,
    body: BodyOutcome,
    data: FunctionBodyData,
    place: SyntaxStablePtrId,
    d: OutsideDiagnostic,
)
    requires
        is_body_data(db, id, body, data),
    ensures
        data.body.exprs@ == body.exprs@,
        data.body.patterns@ == body.patterns@,
        data.body.statements@ == body.statements@,
        data.body.body_expr == body.body_expr,
        data.resolver_data.id == body.resolver_id,
        data.resolver_data.trait_or_impl_ctx == TraitOrImplContext::Impl(id.impl_def_id),
        data.diagnostics@.contains(passed_on(d)) <==> body.diagnostics@.contains(d),
        data.diagnostics@.len() == body.diagnostics@.len(),
        has_key(data.expr_lookup@, place) <==> has_key(body.exprs@, place),
        has_key(data.pattern_lookup@, place) <==> has_key(body.patterns@, place),
        forall|i: int|
            0 <= i < body.exprs@.len() && (#[trigger] body.exprs@[i]).0 == place && (forall|j: int|
                i < j < body.exprs@.len() ==> (#[trigger] body.exprs@[j]).0 != place) ==> lookup(
                data.expr_lookup@,
                place,
            ) == Some(body.exprs@[i].1),
        forall|i: int|
            0 <= i < body.patterns@.len() && (#[trigger] body.patterns@[i]).0 == place && (forall|
                j: int,
            |
                i < j < body.patterns@.len() ==> (#[trigger] body.patterns@[j]).0 != place)
                ==> lookup(data.pattern_lookup@, place) == Some(body.patterns@[i].1),
{
    law_last_entries_stay(body.exprs@, place);
    law_last_entries_stay(body.patterns@, place);
    lemma_outside_members(body.diagnostics@, d);
}

/// A function refers to itself, in its body, as the trait function that it implements, of the impl
/// with its own parameters as arguments, with its own arguments.
pub proof fn law_bodies_refer_to_the_function_of_the_impl(
    db: SemanticGroup,
    id: ImplFunctionId,
    f: FunctionFacts,
    data: FunctionBodyData,
    body: BodyOutcome,
)
    requires
        is_body_data(db, id, body, data),
        db.has_own_substitution(id.impl_def_id),
        db.spec_definition(id.impl_def_id) is Ok,
        lookup(db.facts.functions@, id) == Some(f),
        db.spec_function_declaration(id) is Ok,
    ensures
        match (db.spec_function_declaration(id)->Ok_0.trait_function_id, f.own_args) {
            (Ok(function), Ok(args)) => data.function_id matches Ok(own) && own.0
                < db.interned@.functions.len() && {
                let long = db.interned@.functions[own.0 as int];
                &&& long.generic_args == args@
                &&& long.generic_function matches GenericFunctionId::Impl(i) && i.function
                    == function && (db.interned@.impls[i.impl_id.0 as int] matches
                    ImplLongId::Concrete(c) && db.interned@.concrete_impls[c.0 as int].impl_def_id
                    == id.impl_def_id && (lookup(
                    db.facts.impl_defs@,
                    id.impl_def_id,
                ) matches Some(facts) ==> db.interned@.concrete_impls[c.0 as int].generic_args
                    == facts.generics.params_as_args@))
            },
            _ => data.function_id is Err,
        },
{
}

} // verus!
