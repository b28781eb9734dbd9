//! All that is reported of the definition of an impl and its items.

use vstd::prelude::*;

use crate::collections::{
    has_key, keys_of, lemma_concat_members, lookup, values_of, OrderedHashMap,
};
use crate::db::SemanticGroup;
use crate::declaration::{
    impl_def_concrete_trait, impl_def_substitution, law_own_substitution_is_stable,
};
use crate::definition::{
    lemma_definition_grown, priv_impl_definition_data, DefinitionView, ImplDefinitionData,
};
use crate::deref::lemma_definition_items_are_own;
use crate::deref_diagnostics::{
    deref_checkable, deref_diagnostics, deref_impl_diagnostics, lemma_checkable_grown,
};
use crate::diagnostics::{
    is_error, lemma_outside_members, outside_view, passed_on, DiagnosticAdded, DiagnosticView,
    Diagnostics, OutsideDiagnostic, SemanticDiagnosticKind, SemanticDiagnostics, Severity,
};
use crate::facts::{ImplicitImplId, TypeAtPlace};
use crate::functions::{
    impl_function_body_diagnostics, impl_function_declaration_diagnostics,
    law_function_declaration_is_stable, lemma_function_declaration_grown,
};
use crate::ids::{
    ImplConstantDefId, ImplDefId, ImplFunctionId, ImplImplDefId, ImplTypeDefId, SmolStrId,
    SyntaxStablePtrId, TraitImplId, TypeId,
};
use crate::item_constants::{impl_constant_def_semantic_diagnostics, lemma_constant_data_grown};
use crate::item_impls::{
    impl_impl_def_semantic_diagnostics, implicit_impl_impl_semantic_diagnostics,
    lemma_impl_item_data_grown, lemma_implicit_data_grown,
};
use crate::syntax::{FunctionWithBody, ItemConstant, ItemImplAlias, ItemTypeAlias};
use crate::item_types::{
    impl_type_def_resolved_type, impl_type_def_semantic_diagnostics, lemma_type_data_grown,
};

verus! {

/// The lists of some keys, one after the other.
pub open spec fn flat<K>(keys: Seq<K>, list: spec_fn(K) -> Seq<DiagnosticView>) -> Seq<
    DiagnosticView,
>
    decreases keys.len(),
{
    if keys.len() == 0 {
        seq![]
    } else {
        flat(keys.drop_last(), list) + list(keys.last())
    }
}

proof fn lemma_flat_same<K>(
    keys: Seq<K>,
    f: spec_fn(K) -> Seq<DiagnosticView>,
    g: spec_fn(K) -> Seq<DiagnosticView>,
)
    requires
        forall|i: int| 0 <= i < keys.len() ==> f(#[trigger] keys[i]) == g(keys[i]),
    ensures
        flat(keys, f) == flat(keys, g),
    decreases keys.len(),
{
    if keys.len() > 0 {
        let init = keys.drop_last();
        assert forall|i: int| 0 <= i < init.len() implies f(#[trigger] init[i]) == g(init[i]) by {
            assert(init[i] == keys[i]);
        }
        lemma_flat_same(init, f, g);
        assert(f(keys[keys.len() - 1]) == g(keys[keys.len() - 1]));
    }
}

/// What is reported of the functions, types, constants and impls of an impl.
impl SemanticGroup {
    #[verifier::opaque]
    pub open spec fn function_report(self, id: ImplFunctionId) -> Seq<DiagnosticView> {
        (match self.spec_function_declaration(id) {
            Ok(d) => d.diagnostics,
            Err(_) => seq![],
        }) + match self.spec_body_outcome(id) {
            Ok(outcome) => outside_view(outcome.diagnostics@),
            Err(_) => seq![],
        }
    }

    /// What is wrong with a type, where it is written.
    pub open spec fn type_based_report(self, ty: TypeId, stable_ptr: SyntaxStablePtrId) -> Seq<
        DiagnosticView,
    > {
        match lookup(self.facts.type_diagnostics@, TypeAtPlace { ty, stable_ptr }) {
            Some(list) => outside_view(list@),
            None => seq![],
        }
    }

    #[verifier::opaque]
    pub open spec fn type_report(self, id: ImplTypeDefId) -> Seq<DiagnosticView> {
        (match self.spec_type_data(id, self.type_in_cycle(id)) {
            Ok(data) => data.diagnostics,
            Err(_) => seq![],
        }) + match self.spec_resolved_type(id) {
            Ok(ty) => self.type_based_report(ty, id.stable_ptr),
            Err(_) => seq![],
        }
    }

    #[verifier::opaque]
    pub open spec fn constant_report(self, id: ImplConstantDefId) -> Seq<DiagnosticView> {
        match self.spec_constant_data(id, self.constant_in_cycle(id)) {
            Ok(data) => data.diagnostics,
            Err(_) => seq![],
        }
    }

    #[verifier::opaque]
    pub open spec fn impl_report(self, id: ImplImplDefId) -> Seq<DiagnosticView> {
        match self.spec_impl_item_data(id, self.impl_item_in_cycle(id)) {
            Ok(data) => data.diagnostics,
            Err(_) => seq![],
        }
    }

    #[verifier::opaque]
    pub open spec fn implicit_report(self, impl_def_id: ImplDefId, id: TraitImplId) -> Seq<
        DiagnosticView,
    > {
        match self.spec_implicit_data(impl_def_id, id, self.implicit_in_cycle(impl_def_id, id)) {
            Ok(data) => data.diagnostics,
            Err(_) => seq![],
        }
    }

    /// All that is reported of an impl and its items, but for the rules on dereferences.
    pub open spec fn item_diagnostics(self, impl_def_id: ImplDefId) -> Seq<DiagnosticView> {
        let d = self.spec_definition(impl_def_id)->Ok_0;
        d.diagnostics + flat(keys_of(d.functions), |id: ImplFunctionId| self.function_report(id))
            + flat(keys_of(d.types), |id: ImplTypeDefId| self.type_report(id)) + flat(
            keys_of(d.constants),
            |id: ImplConstantDefId| self.constant_report(id),
        ) + flat(keys_of(d.impls), |id: ImplImplDefId| self.impl_report(id)) + flat(
            values_of(d.implicit_impls),
            |id: TraitImplId| self.implicit_report(impl_def_id, id),
        )
    }

    /// Whether the trait of an impl is the one that dereferences go through.
    pub open spec fn is_deref_impl(self, impl_def_id: ImplDefId) -> bool {
        self.spec_impl_def_concrete_trait(impl_def_id) matches Ok(t) && self.spec_trait_long(
            t,
        ).trait_id == self.facts.core.deref_trt
    }

    /// All that is reported of an impl and its items.
    pub open spec fn definition_report(self, impl_def_id: ImplDefId) -> Seq<DiagnosticView> {
        if self.spec_definition(impl_def_id) is Err {
            seq![]
        } else {
            self.item_diagnostics(impl_def_id) + if error_free(self.item_diagnostics(impl_def_id))
                && self.is_deref_impl(impl_def_id) {
                deref_diagnostics(
                    self,
                    impl_def_id,
                    self.spec_impl_def_concrete_trait(impl_def_id)->Ok_0,
                )
            } else {
                seq![]
            }
        }
    }
}

/// Whether no diagnostic is an error.
pub open spec fn error_free(diagnostics: Seq<DiagnosticView>) -> bool {
    forall|i: int| 0 <= i < diagnostics.len() ==> !is_error(#[trigger] diagnostics[i])
}

/// Whether an impl can be checked as one that dereferences, where it is one and is otherwise free
/// of errors.
pub open spec fn deref_checkable_if_error_free(db: SemanticGroup, impl_def_id: ImplDefId) -> bool {
    db.spec_definition(impl_def_id) is Ok && error_free(db.item_diagnostics(impl_def_id))
        && db.is_deref_impl(impl_def_id) ==> deref_checkable(
        db,
        impl_def_id,
        db.spec_impl_def_concrete_trait(impl_def_id)->Ok_0,
    )
}

/// Whether an impl has a definition.
spec fn defined(db: SemanticGroup, impl_def_id: ImplDefId) -> bool {
    &&& db.wf()
    &&& db.definable(impl_def_id)
    &&& db.spec_definition(impl_def_id) is Ok
}

/// Whether an impl has a definition, and its own substitution is interned.
spec fn reportable(db: SemanticGroup, impl_def_id: ImplDefId) -> bool {
    &&& defined(db, impl_def_id)
    &&& db.has_own_substitution(impl_def_id)
}

/// Whether a database is another with more values interned, in which an impl has the same
/// substitution of its own.
spec fn grown_for(after: SemanticGroup, before: SemanticGroup, impl_def_id: ImplDefId) -> bool {
    &&& after.wf()
    &&& after.grown_from(before)
    &&& after.own_substitution(impl_def_id) == before.own_substitution(impl_def_id)
}

proof fn lemma_reportable_grown(
    before: SemanticGroup,
    after: SemanticGroup,
    impl_def_id: ImplDefId,
)
    requires
        reportable(before, impl_def_id),
        after.wf(),
        after.grown_from(before),
    ensures
        reportable(after, impl_def_id),
        grown_for(after, before, impl_def_id),
        after.spec_definition(impl_def_id) == before.spec_definition(impl_def_id),
{
    lemma_definition_grown(before, after, impl_def_id);
    law_own_substitution_is_stable(
        before,
        after,
        impl_def_id,
        before.own_substitution(impl_def_id),
    );
}

/// Whether some functions are functions of an impl.
spec fn own_functions(db: SemanticGroup, impl_def_id: ImplDefId, keys: Seq<ImplFunctionId>) -> bool {
    forall|i: int|
        0 <= i < keys.len() ==> (#[trigger] keys[i]).impl_def_id == impl_def_id && db.has_function(
            keys[i],
        )
}

proof fn lemma_functions_grown(
    before: SemanticGroup,
    after: SemanticGroup,
    impl_def_id: ImplDefId,
    keys: Seq<ImplFunctionId>,
)
    requires
        defined(before, impl_def_id),
        grown_for(after, before, impl_def_id),
        own_functions(before, impl_def_id, keys),
    ensures
        own_functions(after, impl_def_id, keys),
        flat(keys, |id: ImplFunctionId| after.function_report(id)) == flat(
            keys,
            |id: ImplFunctionId| before.function_report(id),
        ),
{
    let f = |id: ImplFunctionId| after.function_report(id);
    let g = |id: ImplFunctionId| before.function_report(id);
    assert forall|i: int| 0 <= i < keys.len() implies f(#[trigger] keys[i]) == g(keys[i])
        && after.has_function(keys[i]) by {
        reveal(SemanticGroup::function_report);
        lemma_function_declaration_grown(before, after, keys[i]);
    }
    lemma_flat_same(keys, f, g);
}

proof fn lemma_types_grown(
    before: SemanticGroup,
    after: SemanticGroup,
    impl_def_id: ImplDefId,
    keys: Seq<ImplTypeDefId>,
)
    requires
        defined(before, impl_def_id),
        grown_for(after, before, impl_def_id),
        forall|i: int| 0 <= i < keys.len() ==> (#[trigger] keys[i]).impl_def_id == impl_def_id,
    ensures
        flat(keys, |id: ImplTypeDefId| after.type_report(id)) == flat(
            keys,
            |id: ImplTypeDefId| before.type_report(id),
        ),
{
    let f = |id: ImplTypeDefId| after.type_report(id);
    let g = |id: ImplTypeDefId| before.type_report(id);
    assert forall|i: int| 0 <= i < keys.len() implies f(#[trigger] keys[i]) == g(keys[i]) by {
        reveal(SemanticGroup::type_report);
        lemma_type_data_grown(before, after, keys[i], true);
        lemma_type_data_grown(before, after, keys[i], false);
    }
    lemma_flat_same(keys, f, g);
}

proof fn lemma_constants_grown(
    before: SemanticGroup,
    after: SemanticGroup,
    impl_def_id: ImplDefId,
    keys: Seq<ImplConstantDefId>,
)
    requires
        defined(before, impl_def_id),
        grown_for(after, before, impl_def_id),
        forall|i: int| 0 <= i < keys.len() ==> (#[trigger] keys[i]).impl_def_id == impl_def_id,
    ensures
        flat(keys, |id: ImplConstantDefId| after.constant_report(id)) == flat(
            keys,
            |id: ImplConstantDefId| before.constant_report(id),
        ),
{
    let f = |id: ImplConstantDefId| after.constant_report(id);
    let g = |id: ImplConstantDefId| before.constant_report(id);
    assert forall|i: int| 0 <= i < keys.len() implies f(#[trigger] keys[i]) == g(keys[i]) by {
        reveal(SemanticGroup::constant_report);
        lemma_constant_data_grown(before, after, keys[i], true);
        lemma_constant_data_grown(before, after, keys[i], false);
    }
    lemma_flat_same(keys, f, g);
}

proof fn lemma_impls_grown(
    before: SemanticGroup,
    after: SemanticGroup,
    impl_def_id: ImplDefId,
    keys: Seq<ImplImplDefId>,
)
    requires
        defined(before, impl_def_id),
        grown_for(after, before, impl_def_id),
        forall|i: int| 0 <= i < keys.len() ==> (#[trigger] keys[i]).impl_def_id == impl_def_id,
    ensures
        flat(keys, |id: ImplImplDefId| after.impl_report(id)) == flat(
            keys,
            |id: ImplImplDefId| before.impl_report(id),
        ),
{
    let f = |id: ImplImplDefId| after.impl_report(id);
    let g = |id: ImplImplDefId| before.impl_report(id);
    assert forall|i: int| 0 <= i < keys.len() implies f(#[trigger] keys[i]) == g(keys[i]) by {
        reveal(SemanticGroup::impl_report);
        lemma_impl_item_data_grown(before, after, keys[i], true);
        lemma_impl_item_data_grown(before, after, keys[i], false);
    }
    lemma_flat_same(keys, f, g);
}

proof fn lemma_implicits_grown(
    before: SemanticGroup,
    after: SemanticGroup,
    impl_def_id: ImplDefId,
    keys: Seq<TraitImplId>,
)
    requires
        defined(before, impl_def_id),
        grown_for(after, before, impl_def_id),
    ensures
        flat(keys, |id: TraitImplId| after.implicit_report(impl_def_id, id)) == flat(
            keys,
            |id: TraitImplId| before.implicit_report(impl_def_id, id),
        ),
{
    let f = |id: TraitImplId| after.implicit_report(impl_def_id, id);
    let g = |id: TraitImplId| before.implicit_report(impl_def_id, id);
    assert forall|i: int| 0 <= i < keys.len() implies f(#[trigger] keys[i]) == g(keys[i]) by {
        reveal(SemanticGroup::implicit_report);
        lemma_implicit_data_grown(before, after, impl_def_id, keys[i], true);
        lemma_implicit_data_grown(before, after, impl_def_id, keys[i], false);
    }
    lemma_flat_same(keys, f, g);
}

/// What is reported of an impl and its items stays as more values are interned.
proof fn lemma_item_diagnostics_grown(
    before: SemanticGroup,
    after: SemanticGroup,
    impl_def_id: ImplDefId,
)
    requires
        defined(before, impl_def_id),
        grown_for(after, before, impl_def_id),
    ensures
        after.item_diagnostics(impl_def_id) == before.item_diagnostics(impl_def_id),
{
    let d = before.spec_definition(impl_def_id)->Ok_0;
    lemma_definition_grown(before, after, impl_def_id);
    lemma_own_keys(before, impl_def_id);
    lemma_functions_grown(before, after, impl_def_id, keys_of(d.functions));
    lemma_types_grown(before, after, impl_def_id, keys_of(d.types));
    lemma_constants_grown(before, after, impl_def_id, keys_of(d.constants));
    lemma_impls_grown(before, after, impl_def_id, keys_of(d.impls));
    lemma_implicits_grown(before, after, impl_def_id, values_of(d.implicit_impls));
}

/// The items that the definition of an impl lists are items of the impl.
proof fn lemma_own_keys(db: SemanticGroup, impl_def_id: ImplDefId)
    requires
        defined(db, impl_def_id),
    ensures
        ({
            let d = db.spec_definition(impl_def_id)->Ok_0;
            &&& own_functions(db, impl_def_id, keys_of(d.functions))
            &&& forall|i: int|
                0 <= i < keys_of(d.types).len() ==> (#[trigger] keys_of(d.types)[i]).impl_def_id
                    == impl_def_id
            &&& forall|i: int|
                0 <= i < keys_of(d.constants).len() ==> (#[trigger] keys_of(
                    d.constants,
                )[i]).impl_def_id == impl_def_id
            &&& forall|i: int|
                0 <= i < keys_of(d.impls).len() ==> (#[trigger] keys_of(d.impls)[i]).impl_def_id
                    == impl_def_id
        }),
{
    lemma_definition_items_are_own(db, impl_def_id);
    let d = db.spec_definition(impl_def_id)->Ok_0;
    assert forall|i: int| 0 <= i < keys_of(d.functions).len() implies (#[trigger] keys_of(
        d.functions,
    )[i]).impl_def_id == impl_def_id && db.has_function(keys_of(d.functions)[i]) by {
        assert(d.functions[i].0 == keys_of(d.functions)[i]);
        assert(has_key(d.functions, d.functions[i].0));
    }
    assert forall|i: int| 0 <= i < keys_of(d.types).len() implies (#[trigger] keys_of(
        d.types,
    )[i]).impl_def_id == impl_def_id by {
        assert(d.types[i].0 == keys_of(d.types)[i]);
    }
    assert forall|i: int| 0 <= i < keys_of(d.constants).len() implies (#[trigger] keys_of(
        d.constants,
    )[i]).impl_def_id == impl_def_id by {
        assert(d.constants[i].0 == keys_of(d.constants)[i]);
    }
    assert forall|i: int| 0 <= i < keys_of(d.impls).len() implies (#[trigger] keys_of(
        d.impls,
    )[i]).impl_def_id == impl_def_id by {
        assert(d.impls[i].0 == keys_of(d.impls)[i]);
    }
}

/// Adds what is reported of a function of an impl.
fn report_function(
    db: &mut SemanticGroup,
    diagnostics: &mut SemanticDiagnostics,
    id: ImplFunctionId,
)
    requires
        reportable(*old(db), id.impl_def_id),
        old(db).has_function(id),
    ensures
        final(db).wf(),
        final(db).grown_from(*old(db)),
        final(diagnostics)@ == old(diagnostics)@ + final(db).function_report(id),
{
    let ghost before = *db;
    let ghost base = diagnostics@;
    diagnostics.extend(impl_function_declaration_diagnostics(db, id));
    let ghost declared = *db;
    proof {
        law_function_declaration_is_stable(before, declared, id);
    }
    diagnostics.extend(impl_function_body_diagnostics(db, id));
    proof {
        law_function_declaration_is_stable(declared, *db, id);
        reveal(SemanticGroup::function_report);
        assert(diagnostics@ =~= base + db.function_report(id));
    }
}

/// Adds what is reported of the functions of an impl.
fn report_functions(
    db: &mut SemanticGroup,
    diagnostics: &mut SemanticDiagnostics,
    impl_def_id: ImplDefId,
    functions: &OrderedHashMap<ImplFunctionId, FunctionWithBody>,
)
    requires
        reportable(*old(db), impl_def_id),
        old(db).spec_definition(impl_def_id)->Ok_0.functions == functions@,
    ensures
        reportable(*final(db), impl_def_id),
        final(db).grown_from(*old(db)),
        final(db).spec_definition(impl_def_id) == old(db).spec_definition(impl_def_id),
        final(diagnostics)@ == old(diagnostics)@ + flat(
            keys_of(functions@),
            |id: ImplFunctionId| final(db).function_report(id),
        ),
{
    let ghost base = diagnostics@;
    let ghost keys = keys_of(functions@);
    proof {
        lemma_own_keys(*db, impl_def_id);
        assert(keys.take(0) =~= Seq::empty());
        assert(base + Seq::<DiagnosticView>::empty() =~= base);
    }
    let count: usize = functions.len();
    let mut i: usize = 0;
    while i < count
        invariant
            i <= count == functions@.len(),
            keys == keys_of(functions@),
            reportable(*db, impl_def_id),
            db.grown_from(*old(db)),
            db.spec_definition(impl_def_id) == old(db).spec_definition(impl_def_id),
            own_functions(*db, impl_def_id, keys),
            diagnostics@ == base + flat(
                keys.take(i as int),
                |id: ImplFunctionId| db.function_report(id),
            ),
        decreases count - i,
    {
        let (function_id, _) = functions.entry_at(i);
        let id = *function_id;
        assert(id == keys[i as int]);
        let ghost before = *db;
        report_function(db, diagnostics, id);
        proof {
            lemma_reportable_grown(before, *db, impl_def_id);
            lemma_functions_grown(before, *db, impl_def_id, keys);
            lemma_own_prefix(before, impl_def_id, keys, i as int);
            lemma_functions_grown(before, *db, impl_def_id, keys.take(i as int));
            lemma_flat_next(
                base,
                keys,
                i as int,
                |id: ImplFunctionId| db.function_report(id),
            );
        }
        i += 1;
    }
    assert(keys.take(count as int) =~= keys);
}

/// The lists of one more key.
proof fn lemma_flat_next<K>(
    base: Seq<DiagnosticView>,
    keys: Seq<K>,
    i: int,
    list: spec_fn(K) -> Seq<DiagnosticView>,
)
    requires
        0 <= i < keys.len(),
    ensures
        base + flat(keys.take(i), list) + list(keys[i]) == base + flat(keys.take(i + 1), list),
{
    assert(keys.take(i + 1).drop_last() =~= keys.take(i));
    assert(base + flat(keys.take(i), list) + list(keys[i]) =~= base + flat(keys.take(i + 1), list));
}

proof fn lemma_own_prefix(
    db: SemanticGroup,
    impl_def_id: ImplDefId,
    keys: Seq<ImplFunctionId>,
    n: int,
)
    requires
        own_functions(db, impl_def_id, keys),
        0 <= n <= keys.len(),
    ensures
        own_functions(db, impl_def_id, keys.take(n)),
{
    assert forall|i: int| 0 <= i < n implies (#[trigger] keys.take(n)[i]).impl_def_id == impl_def_id
        && db.has_function(keys.take(n)[i]) by {
        assert(keys.take(n)[i] == keys[i]);
    }
}

/// Adds what is wrong with a type, where it is written.
pub fn add_type_based_diagnostics(
    db: &SemanticGroup,
    diagnostics: &mut SemanticDiagnostics,
    ty: TypeId,
    stable_ptr: SyntaxStablePtrId,
)
    ensures
        final(diagnostics)@ == old(diagnostics)@ + db.type_based_report(ty, stable_ptr),
{
    match db.facts.type_diagnostics.get(&TypeAtPlace { ty, stable_ptr }) {
        Some(list) => diagnostics.extend_outside(list),
        None => {
            assert(diagnostics@ =~= diagnostics@ + Seq::<DiagnosticView>::empty());
        },
    }
}

/// Adds what is reported of the associated types of an impl.
fn report_types(
    db: &SemanticGroup,
    diagnostics: &mut SemanticDiagnostics,
    impl_def_id: ImplDefId,
    types: &OrderedHashMap<ImplTypeDefId, ItemTypeAlias>,
)
    requires
        reportable(*db, impl_def_id),
        db.spec_definition(impl_def_id)->Ok_0.types == types@,
    ensures
        final(diagnostics)@ == old(diagnostics)@ + flat(
            keys_of(types@),
            |id: ImplTypeDefId| db.type_report(id),
        ),
{
    let ghost base = diagnostics@;
    let ghost keys = keys_of(types@);
    let ghost list = |id: ImplTypeDefId| db.type_report(id);
    proof {
        lemma_own_keys(*db, impl_def_id);
        assert(keys.take(0) =~= Seq::empty());
        assert(base + Seq::<DiagnosticView>::empty() =~= base);
    }
    let count: usize = types.len();
    let mut i: usize = 0;
    while i < count
        invariant
            i <= count == types@.len(),
            keys == keys_of(types@),
            list == (|id: ImplTypeDefId| db.type_report(id)),
            reportable(*db, impl_def_id),
            forall|i: int| 0 <= i < keys.len() ==> (#[trigger] keys[i]).impl_def_id == impl_def_id,
            diagnostics@ == base + flat(keys.take(i as int), list),
        decreases count - i,
    {
        let (type_id, _) = types.entry_at(i);
        let id = *type_id;
        assert(id == keys[i as int]);
        diagnostics.extend(impl_type_def_semantic_diagnostics(db, id));
        match impl_type_def_resolved_type(db, id) {
            Ok(ty) => add_type_based_diagnostics(db, diagnostics, ty, id.stable_ptr),
            Err(_) => {},
        }
        proof {
            reveal(SemanticGroup::type_report);
            assert(diagnostics@ =~= base + flat(keys.take(i as int), list) + list(id));
            lemma_flat_next(base, keys, i as int, list);
        }
        i += 1;
    }
    assert(keys.take(count as int) =~= keys);
}

/// Adds what is reported of the associated constants of an impl.
fn report_constants(
    db: &SemanticGroup,
    diagnostics: &mut SemanticDiagnostics,
    impl_def_id: ImplDefId,
    constants: &OrderedHashMap<ImplConstantDefId, ItemConstant>,
)
    requires
        reportable(*db, impl_def_id),
        db.spec_definition(impl_def_id)->Ok_0.constants == constants@,
    ensures
        final(diagnostics)@ == old(diagnostics)@ + flat(
            keys_of(constants@),
            |id: ImplConstantDefId| db.constant_report(id),
        ),
{
    let ghost base = diagnostics@;
    let ghost keys = keys_of(constants@);
    let ghost list = |id: ImplConstantDefId| db.constant_report(id);
    proof {
        lemma_own_keys(*db, impl_def_id);
        assert(keys.take(0) =~= Seq::empty());
        assert(base + Seq::<DiagnosticView>::empty() =~= base);
    }
    let count: usize = constants.len();
    let mut i: usize = 0;
    while i < count
        invariant
            i <= count == constants@.len(),
            keys == keys_of(constants@),
            list == (|id: ImplConstantDefId| db.constant_report(id)),
            reportable(*db, impl_def_id),
            forall|i: int| 0 <= i < keys.len() ==> (#[trigger] keys[i]).impl_def_id == impl_def_id,
            diagnostics@ == base + flat(keys.take(i as int), list),
        decreases count - i,
    {
        let (constant_id, _) = constants.entry_at(i);
        let id = *constant_id;
        assert(id == keys[i as int]);
        diagnostics.extend(impl_constant_def_semantic_diagnostics(db, id));
        proof {
            reveal(SemanticGroup::constant_report);
            lemma_flat_next(base, keys, i as int, list);
        }
        i += 1;
    }
    assert(keys.take(count as int) =~= keys);
}

/// Adds what is reported of the associated impls of an impl.
fn report_impls(
    db: &mut SemanticGroup,
    diagnostics: &mut SemanticDiagnostics,
    impl_def_id: ImplDefId,
    impls: &OrderedHashMap<ImplImplDefId, ItemImplAlias>,
)
    requires
        reportable(*old(db), impl_def_id),
        old(db).spec_definition(impl_def_id)->Ok_0.impls == impls@,
    ensures
        reportable(*final(db), impl_def_id),
        final(db).grown_from(*old(db)),
        final(db).spec_definition(impl_def_id) == old(db).spec_definition(impl_def_id),
        final(diagnostics)@ == old(diagnostics)@ + flat(
            keys_of(impls@),
            |id: ImplImplDefId| final(db).impl_report(id),
        ),
{
    let ghost base = diagnostics@;
    let ghost keys = keys_of(impls@);
    proof {
        lemma_own_keys(*db, impl_def_id);
        assert(keys.take(0) =~= Seq::empty());
        assert(base + Seq::<DiagnosticView>::empty() =~= base);
    }
    let count: usize = impls.len();
    let mut i: usize = 0;
    while i < count
        invariant
            i <= count == impls@.len(),
            keys == keys_of(impls@),
            reportable(*db, impl_def_id),
            db.grown_from(*old(db)),
            db.spec_definition(impl_def_id) == old(db).spec_definition(impl_def_id),
            forall|i: int| 0 <= i < keys.len() ==> (#[trigger] keys[i]).impl_def_id == impl_def_id,
            diagnostics@ == base + flat(
                keys.take(i as int),
                |id: ImplImplDefId| db.impl_report(id),
            ),
        decreases count - i,
    {
        let (impl_id, _) = impls.entry_at(i);
        let id = *impl_id;
        assert(id == keys[i as int]);
        let ghost before = *db;
        diagnostics.extend(impl_impl_def_semantic_diagnostics(db, id));
        proof {
            lemma_reportable_grown(before, *db, impl_def_id);
            assert forall|j: int| 0 <= j < i implies (#[trigger] keys.take(
                i as int,
            )[j]).impl_def_id == impl_def_id by {
                assert(keys.take(i as int)[j] == keys[j]);
            }
            lemma_impls_grown(before, *db, impl_def_id, keys.take(i as int));
            reveal(SemanticGroup::impl_report);
            lemma_flat_next(base, keys, i as int, |id: ImplImplDefId| db.impl_report(id));
        }
        i += 1;
    }
    assert(keys.take(count as int) =~= keys);
}

/// Adds what is reported of the impls that an impl leaves to inference.
fn report_implicit_impls(
    db: &mut SemanticGroup,
    diagnostics: &mut SemanticDiagnostics,
    impl_def_id: ImplDefId,
    implicit_impls: &OrderedHashMap<SmolStrId, TraitImplId>,
)
    requires
        reportable(*old(db), impl_def_id),
        old(db).spec_definition(impl_def_id)->Ok_0.implicit_impls == implicit_impls@,
    ensures
        reportable(*final(db), impl_def_id),
        final(db).grown_from(*old(db)),
        final(db).spec_definition(impl_def_id) == old(db).spec_definition(impl_def_id),
        final(diagnostics)@ == old(diagnostics)@ + flat(
            values_of(implicit_impls@),
            |id: TraitImplId| final(db).implicit_report(impl_def_id, id),
        ),
{
    let ghost base = diagnostics@;
    let ghost keys = values_of(implicit_impls@);
    proof {
        assert(keys.take(0) =~= Seq::empty());
        assert(base + Seq::<DiagnosticView>::empty() =~= base);
    }
    let count: usize = implicit_impls.len();
    let mut i: usize = 0;
    while i < count
        invariant
            i <= count == implicit_impls@.len(),
            keys == values_of(implicit_impls@),
            reportable(*db, impl_def_id),
            db.grown_from(*old(db)),
            db.spec_definition(impl_def_id) == old(db).spec_definition(impl_def_id),
            diagnostics@ == base + flat(
                keys.take(i as int),
                |id: TraitImplId| db.implicit_report(impl_def_id, id),
            ),
        decreases count - i,
    {
        let (_, trait_impl_id) = implicit_impls.entry_at(i);
        let id = *trait_impl_id;
        assert(id == keys[i as int]);
        let ghost before = *db;
        diagnostics.extend(implicit_impl_impl_semantic_diagnostics(db, impl_def_id, id));
        proof {
            lemma_reportable_grown(before, *db, impl_def_id);
            lemma_implicits_grown(before, *db, impl_def_id, keys.take(i as int));
            reveal(SemanticGroup::implicit_report);
            lemma_flat_next(
                base,
                keys,
                i as int,
                |id: TraitImplId| db.implicit_report(impl_def_id, id),
            );
        }
        i += 1;
    }
    assert(keys.take(count as int) =~= keys);
}

/// Adds all that is reported of an impl and its items, but for the rules on dereferences.
fn report_items(
    db: &mut SemanticGroup,
    diagnostics: &mut SemanticDiagnostics,
    impl_def_id: ImplDefId,
    data: ImplDefinitionData,
)
    requires
        reportable(*old(db), impl_def_id),
        old(db).spec_definition(impl_def_id) == Ok::<_, DiagnosticAdded>(data@),
        old(diagnostics)@.len() == 0,
    ensures
        reportable(*final(db), impl_def_id),
        final(db).grown_from(*old(db)),
        final(diagnostics)@ == final(db).item_diagnostics(impl_def_id),
{
    let ghost d = data@;
    diagnostics.extend(data.diagnostics);
    report_functions(db, diagnostics, impl_def_id, &data.function_asts);
    let ghost a = *db;
    report_types(db, diagnostics, impl_def_id, &data.item_type_asts);
    report_constants(db, diagnostics, impl_def_id, &data.item_constant_asts);
    report_impls(db, diagnostics, impl_def_id, &data.item_impl_asts);
    let ghost b = *db;
    report_implicit_impls(db, diagnostics, impl_def_id, &data.implicit_impls_id_by_name);
    proof {
        lemma_own_keys(a, impl_def_id);
        lemma_reportable_grown(a, *db, impl_def_id);
        lemma_reportable_grown(b, *db, impl_def_id);
        lemma_functions_grown(a, *db, impl_def_id, keys_of(d.functions));
        lemma_types_grown(a, *db, impl_def_id, keys_of(d.types));
        lemma_constants_grown(a, *db, impl_def_id, keys_of(d.constants));
        lemma_impls_grown(b, *db, impl_def_id, keys_of(d.impls));
        assert(diagnostics@ =~= db.item_diagnostics(impl_def_id));
    }
}

/// All that is reported of an impl and its items.
pub fn impl_semantic_definition_diagnostics(
    db: &mut SemanticGroup,
    impl_def_id: ImplDefId,
) -> (res: Diagnostics)
    requires
        old(db).wf(),
        old(db).definable(impl_def_id),
        deref_checkable_if_error_free(*old(db), impl_def_id),
    ensures
        final(db).wf(),
        final(db).grown_from(*old(db)),
        final(db).definition_report(impl_def_id) == old(db).definition_report(impl_def_id),
        res@ == final(db).definition_report(impl_def_id),
{
    let ghost start = *db;
    let data = match priv_impl_definition_data(db, impl_def_id) {
        Ok(data) => data,
        Err(_) => return Diagnostics::new(),
    };
    if let Err(_) = impl_def_substitution(db, impl_def_id) {
        return Diagnostics::new();
    }
    let ghost interned = *db;
    proof {
        lemma_definition_grown(start, interned, impl_def_id);
        lemma_item_diagnostics_grown(start, interned, impl_def_id);
    }
    let mut diagnostics = SemanticDiagnostics::new();
    report_items(db, &mut diagnostics, impl_def_id, data);
    let ghost reported = *db;
    proof {
        lemma_reportable_grown(interned, reported, impl_def_id);
        lemma_item_diagnostics_grown(interned, reported, impl_def_id);
        lemma_definition_grown(start, reported, impl_def_id);
    }
    assert(diagnostics@ + Seq::<DiagnosticView>::empty() =~= diagnostics@);
    // Diagnostics for special traits.
    if diagnostics.is_error_free() {
        if let Ok(concrete_trait) = impl_def_concrete_trait(db, impl_def_id) {
            if db.trait_long(concrete_trait).trait_id == db.facts.core.deref_trt {
                proof {
                    lemma_checkable_grown(start, reported, impl_def_id, concrete_trait);
                }
                deref_impl_diagnostics(db, impl_def_id, concrete_trait, &mut diagnostics);
                proof {
                    lemma_reportable_grown(reported, *db, impl_def_id);
                    lemma_item_diagnostics_grown(reported, *db, impl_def_id);
                    lemma_definition_grown(reported, *db, impl_def_id);
                }
            }
        }
    }
    diagnostics.build()
}

// --- Laws ---

/// Whether a diagnostic is one of those of another stage.
pub open spec fn said_outside(list: Seq<OutsideDiagnostic>, x: DiagnosticView) -> bool {
    exists|d: OutsideDiagnostic| list.contains(d) && x == #[trigger] passed_on(d)
}

/// Whether a diagnostic is among those of the declaration or of the body of a function.
pub open spec fn said_of_function(db: SemanticGroup, id: ImplFunctionId, x: DiagnosticView) -> bool {
    ||| db.spec_function_declaration(id) matches Ok(f) && f.diagnostics.contains(x)
    ||| db.spec_body_outcome(id) matches Ok(body) && said_outside(body.diagnostics@, x)
}

/// Whether a diagnostic is among those of an associated type, or of the type that it stands for.
pub open spec fn said_of_type(db: SemanticGroup, id: ImplTypeDefId, x: DiagnosticView) -> bool {
    db.spec_type_data(id, db.facts.cycles.type_items@.contains(id)) matches Ok(data) && {
        ||| data.diagnostics.contains(x)
        ||| data.resolved_type matches Ok(ty) && (lookup(
            db.facts.type_diagnostics@,
            TypeAtPlace { ty, stable_ptr: id.stable_ptr },
        ) matches Some(list) && said_outside(list@, x))
    }
}

/// Whether a diagnostic is among those of an associated constant.
pub open spec fn said_of_constant(
    db: SemanticGroup,
    id: ImplConstantDefId,
    x: DiagnosticView,
) -> bool {
    db.spec_constant_data(id, db.facts.cycles.constant_items@.contains(id)) matches Ok(data)
        && data.diagnostics.contains(x)
}

/// Whether a diagnostic is among those of an associated impl.
pub open spec fn said_of_impl(db: SemanticGroup, id: ImplImplDefId, x: DiagnosticView) -> bool {
    db.spec_impl_item_data(id, db.facts.cycles.impl_items@.contains(id)) matches Ok(data)
        && data.diagnostics.contains(x)
}

/// Whether a diagnostic is among those of an impl that is left to inference.
pub open spec fn said_of_implicit(
    db: SemanticGroup,
    impl_def_id: ImplDefId,
    trait_impl_id: TraitImplId,
    x: DiagnosticView,
) -> bool {
    db.spec_implicit_data(
        impl_def_id,
        trait_impl_id,
        db.facts.cycles.implicit_impls@.contains(ImplicitImplId { impl_def_id, trait_impl_id }),
    ) matches Ok(data) && data.diagnostics.contains(x)
}

/// Whether an impl leaves an impl to inference.
pub open spec fn leaves_to_inference(d: DefinitionView, trait_impl_id: TraitImplId) -> bool {
    exists|i: int|
        0 <= i < d.implicit_impls.len() && (#[trigger] d.implicit_impls[i]).1 == trait_impl_id
}

/// Whether a diagnostic is among those of the definition of an impl or of one of its items.
pub open spec fn said_of_items(
    db: SemanticGroup,
    impl_def_id: ImplDefId,
    d: DefinitionView,
    x: DiagnosticView,
) -> bool {
    ||| d.diagnostics.contains(x)
    ||| exists|id: ImplFunctionId|
        has_key(d.functions, id) && #[trigger] said_of_function(db, id, x)
    ||| exists|id: ImplTypeDefId| has_key(d.types, id) && #[trigger] said_of_type(db, id, x)
    ||| exists|id: ImplConstantDefId|
        has_key(d.constants, id) && #[trigger] said_of_constant(db, id, x)
    ||| exists|id: ImplImplDefId| has_key(d.impls, id) && #[trigger] said_of_impl(db, id, x)
    ||| exists|id: TraitImplId|
        leaves_to_inference(d, id) && #[trigger] said_of_implicit(db, impl_def_id, id, x)
}

/// The lists of some keys hold what the list of any of them holds.
proof fn lemma_flat_members<K>(
    keys: Seq<K>,
    list: spec_fn(K) -> Seq<DiagnosticView>,
    x: DiagnosticView,
)
    ensures
        flat(keys, list).contains(x) <==> exists|i: int|
            0 <= i < keys.len() && list(#[trigger] keys[i]).contains(x),
    decreases keys.len(),
{
    if keys.len() > 0 {
        let init = keys.drop_last();
        lemma_flat_members(init, list, x);
        lemma_concat_members(flat(init, list), list(keys.last()), x);
        if flat(init, list).contains(x) {
            let i = choose|i: int| 0 <= i < init.len() && list(#[trigger] init[i]).contains(x);
            assert(list(keys[i]).contains(x));
        } else if flat(keys, list).contains(x) {
            assert(list(keys[keys.len() - 1]).contains(x));
        }
        if exists|i: int| 0 <= i < keys.len() && list(#[trigger] keys[i]).contains(x) {
            let i = choose|i: int| 0 <= i < keys.len() && list(#[trigger] keys[i]).contains(x);
            if i < init.len() {
                assert(init[i] == keys[i]);
            }
        }
    } else {
        assert(!flat(keys, list).contains(x));
    }
}

/// What another stage says is passed on.
proof fn lemma_said_outside(list: Seq<OutsideDiagnostic>, x: DiagnosticView)
    ensures
        outside_view(list).contains(x) <==> said_outside(list, x),
{
    if outside_view(list).contains(x) {
        let i = choose|i: int| 0 <= i < list.len() && outside_view(list)[i] == x;
        assert(list.contains(list[i]) && x == passed_on(list[i]));
    }
    if said_outside(list, x) {
        let d = choose|d: OutsideDiagnostic| list.contains(d) && x == #[trigger] passed_on(d);
        lemma_outside_members(list, d);
    }
}

proof fn lemma_function_says(db: SemanticGroup, id: ImplFunctionId, x: DiagnosticView)
    ensures
        db.function_report(id).contains(x) <==> said_of_function(db, id, x),
{
    reveal(SemanticGroup::function_report);
    let declared = match db.spec_function_declaration(id) {
        Ok(d) => d.diagnostics,
        Err(_) => seq![],
    };
    let body = match db.spec_body_outcome(id) {
        Ok(outcome) => outside_view(outcome.diagnostics@),
        Err(_) => seq![],
    };
    lemma_concat_members(declared, body, x);
    if db.spec_body_outcome(id) is Ok {
        lemma_said_outside(db.spec_body_outcome(id)->Ok_0.diagnostics@, x);
    }
}

proof fn lemma_type_says(db: SemanticGroup, id: ImplTypeDefId, x: DiagnosticView)
    ensures
        db.type_report(id).contains(x) <==> said_of_type(db, id, x),
{
    reveal(SemanticGroup::type_report);
    let own = match db.spec_type_data(id, db.type_in_cycle(id)) {
        Ok(data) => data.diagnostics,
        Err(_) => seq![],
    };
    let based = match db.spec_resolved_type(id) {
        Ok(ty) => db.type_based_report(ty, id.stable_ptr),
        Err(_) => seq![],
    };
    lemma_concat_members(own, based, x);
    if db.spec_resolved_type(id) is Ok {
        let place = TypeAtPlace {
            ty: db.spec_resolved_type(id)->Ok_0,
            stable_ptr: id.stable_ptr,
        };
        if has_key(db.facts.type_diagnostics@, place) {
            lemma_said_outside(lookup(db.facts.type_diagnostics@, place)->0@, x);
        }
    }
}

/// What is reported of an impl and its items is what is said of its definition and of each of them.
proof fn lemma_items_say(
    db: SemanticGroup,
    impl_def_id: ImplDefId,
    d: DefinitionView,
    x: DiagnosticView,
)
    requires
        db.spec_definition(impl_def_id) == Ok::<_, DiagnosticAdded>(d),
    ensures
        db.item_diagnostics(impl_def_id).contains(x) <==> said_of_items(db, impl_def_id, d, x),
{
    let f = |id: ImplFunctionId| db.function_report(id);
    let t = |id: ImplTypeDefId| db.type_report(id);
    let c = |id: ImplConstantDefId| db.constant_report(id);
    let m = |id: ImplImplDefId| db.impl_report(id);
    let n = |id: TraitImplId| db.implicit_report(impl_def_id, id);
    let fs = flat(keys_of(d.functions), f);
    let ts = flat(keys_of(d.types), t);
    let cs = flat(keys_of(d.constants), c);
    let ms = flat(keys_of(d.impls), m);
    let ns = flat(values_of(d.implicit_impls), n);
    lemma_concat_members(d.diagnostics, fs, x);
    lemma_concat_members(d.diagnostics + fs, ts, x);
    lemma_concat_members(d.diagnostics + fs + ts, cs, x);
    lemma_concat_members(d.diagnostics + fs + ts + cs, ms, x);
    lemma_concat_members(d.diagnostics + fs + ts + cs + ms, ns, x);
    lemma_flat_members(keys_of(d.functions), f, x);
    lemma_flat_members(keys_of(d.types), t, x);
    lemma_flat_members(keys_of(d.constants), c, x);
    lemma_flat_members(keys_of(d.impls), m, x);
    lemma_flat_members(values_of(d.implicit_impls), n, x);
    assert(fs.contains(x) <==> exists|id: ImplFunctionId|
        has_key(d.functions, id) && #[trigger] said_of_function(db, id, x)) by {
        assert forall|id: ImplFunctionId| #[trigger]
            said_of_function(db, id, x) <==> f(id).contains(x) by {
            lemma_function_says(db, id, x);
        }
        assert forall|i: int| 0 <= i < d.functions.len() implies #[trigger] keys_of(d.functions)[i]
            == d.functions[i].0 && has_key(d.functions, d.functions[i].0) by {
            assert(d.functions[i].0 == d.functions[i].0);
        }
        if fs.contains(x) {
            let i = choose|i: int|
                0 <= i < d.functions.len() && f(#[trigger] keys_of(d.functions)[i]).contains(x);
            assert(said_of_function(db, keys_of(d.functions)[i], x));
        }
        if exists|id: ImplFunctionId|
            has_key(d.functions, id) && #[trigger] said_of_function(db, id, x) {
            let id = choose|id: ImplFunctionId|
                has_key(d.functions, id) && #[trigger] said_of_function(db, id, x);
            let i = choose|i: int| 0 <= i < d.functions.len() && (#[trigger] d.functions[i]).0 == id;
            assert(f(keys_of(d.functions)[i]).contains(x));
        }
    }
    assert(ts.contains(x) <==> exists|id: ImplTypeDefId|
        has_key(d.types, id) && #[trigger] said_of_type(db, id, x)) by {
        assert forall|id: ImplTypeDefId| #[trigger]
            said_of_type(db, id, x) <==> t(id).contains(x) by {
            lemma_type_says(db, id, x);
        }
        assert forall|i: int| 0 <= i < d.types.len() implies #[trigger] keys_of(d.types)[i]
            == d.types[i].0 && has_key(d.types, d.types[i].0) by {
            assert(d.types[i].0 == d.types[i].0);
        }
        if ts.contains(x) {
            let i = choose|i: int|
                0 <= i < d.types.len() && t(#[trigger] keys_of(d.types)[i]).contains(x);
            assert(said_of_type(db, keys_of(d.types)[i], x));
        }
        if exists|id: ImplTypeDefId| has_key(d.types, id) && #[trigger] said_of_type(db, id, x) {
            let id = choose|id: ImplTypeDefId|
                has_key(d.types, id) && #[trigger] said_of_type(db, id, x);
            let i = choose|i: int| 0 <= i < d.types.len() && (#[trigger] d.types[i]).0 == id;
            assert(t(keys_of(d.types)[i]).contains(x));
        }
    }
    assert(cs.contains(x) <==> exists|id: ImplConstantDefId|
        has_key(d.constants, id) && #[trigger] said_of_constant(db, id, x)) by {
        reveal(SemanticGroup::constant_report);
        assert forall|i: int| 0 <= i < d.constants.len() implies #[trigger] keys_of(d.constants)[i]
            == d.constants[i].0 && has_key(d.constants, d.constants[i].0) by {
            assert(d.constants[i].0 == d.constants[i].0);
        }
        if cs.contains(x) {
            let i = choose|i: int|
                0 <= i < d.constants.len() && c(#[trigger] keys_of(d.constants)[i]).contains(x);
            assert(said_of_constant(db, keys_of(d.constants)[i], x));
        }
        if exists|id: ImplConstantDefId|
            has_key(d.constants, id) && #[trigger] said_of_constant(db, id, x) {
            let id = choose|id: ImplConstantDefId|
                has_key(d.constants, id) && #[trigger] said_of_constant(db, id, x);
            let i = choose|i: int| 0 <= i < d.constants.len() && (#[trigger] d.constants[i]).0 == id;
            assert(c(keys_of(d.constants)[i]).contains(x));
        }
    }
    assert(ms.contains(x) <==> exists|id: ImplImplDefId|
        has_key(d.impls, id) && #[trigger] said_of_impl(db, id, x)) by {
        reveal(SemanticGroup::impl_report);
        assert forall|i: int| 0 <= i < d.impls.len() implies #[trigger] keys_of(d.impls)[i]
            == d.impls[i].0 && has_key(d.impls, d.impls[i].0) by {
            assert(d.impls[i].0 == d.impls[i].0);
        }
        if ms.contains(x) {
            let i = choose|i: int|
                0 <= i < d.impls.len() && m(#[trigger] keys_of(d.impls)[i]).contains(x);
            assert(said_of_impl(db, keys_of(d.impls)[i], x));
        }
        if exists|id: ImplImplDefId| has_key(d.impls, id) && #[trigger] said_of_impl(db, id, x) {
            let id = choose|id: ImplImplDefId|
                has_key(d.impls, id) && #[trigger] said_of_impl(db, id, x);
            let i = choose|i: int| 0 <= i < d.impls.len() && (#[trigger] d.impls[i]).0 == id;
            assert(m(keys_of(d.impls)[i]).contains(x));
        }
    }
    assert(ns.contains(x) <==> exists|id: TraitImplId|
        leaves_to_inference(d, id) && #[trigger] said_of_implicit(db, impl_def_id, id, x)) by {
        reveal(SemanticGroup::implicit_report);
        let values = values_of(d.implicit_impls);
        if ns.contains(x) {
            let i = choose|i: int| 0 <= i < values.len() && n(#[trigger] values[i]).contains(x);
            assert(d.implicit_impls[i].1 == values[i]);
            assert(said_of_implicit(db, impl_def_id, values[i], x));
        }
        if exists|id: TraitImplId|
            leaves_to_inference(d, id) && #[trigger] said_of_implicit(db, impl_def_id, id, x) {
            let id = choose|id: TraitImplId|
                leaves_to_inference(d, id) && #[trigger] said_of_implicit(db, impl_def_id, id, x);
            let i = choose|i: int|
                0 <= i < d.implicit_impls.len() && (#[trigger] d.implicit_impls[i]).1 == id;
            assert(values[i] == id);
            assert(n(values[i]).contains(x));
        }
    }
}

/// The report of an impl is complete: it holds every diagnostic of the definition itself, of the
/// declaration and the body of each of its functions, of each of its types, constants and impls, and
/// of each impl that it leaves to inference.
pub proof fn law_definition_reports_are_complete(
    db: SemanticGroup,
    impl_def_id: ImplDefId,
    d: DefinitionView,
    x: DiagnosticView,
)
    requires
        db.spec_definition(impl_def_id) == Ok::<_, DiagnosticAdded>(d),
        said_of_items(db, impl_def_id, d, x),
    ensures
        db.definition_report(impl_def_id).contains(x),
{
    lemma_items_say(db, impl_def_id, d, x);
    let items = db.item_diagnostics(impl_def_id);
    let i = choose|i: int| 0 <= i < items.len() && items[i] == x;
    assert(db.definition_report(impl_def_id)[i] == x);
}

/// The report of an impl holds nothing else, unless the impl dereferences and no error is said of
/// it or of its items: then it holds what the rules on dereferences say of it, too.
pub proof fn law_definition_reports_are_sound(
    db: SemanticGroup,
    impl_def_id: ImplDefId,
    x: DiagnosticView,
)
    ensures
        match db.spec_definition(impl_def_id) {
            Ok(d) => {
                let dereferences = db.spec_impl_def_concrete_trait(impl_def_id) matches Ok(t)
                    && db.interned@.concrete_traits[t.0 as int].trait_id == db.facts.core.deref_trt;
                let sound = forall|y: DiagnosticView| #[trigger]
                    said_of_items(db, impl_def_id, d, y) ==> (y.kind matches
                        SemanticDiagnosticKind::Outside { severity, .. }
                        && severity == Severity::Warning);
                db.definition_report(impl_def_id).contains(x) <==> {
                    ||| said_of_items(db, impl_def_id, d, x)
                    ||| dereferences && sound && deref_diagnostics(
                        db,
                        impl_def_id,
                        db.spec_impl_def_concrete_trait(impl_def_id)->Ok_0,
                    ).contains(x)
                }
            },
            Err(_) => db.definition_report(impl_def_id).len() == 0,
        },
{
    if db.spec_definition(impl_def_id) is Ok {
        let d = db.spec_definition(impl_def_id)->Ok_0;
        let items = db.item_diagnostics(impl_def_id);
        let sound = forall|y: DiagnosticView| #[trigger]
            said_of_items(db, impl_def_id, d, y) ==> (y.kind matches SemanticDiagnosticKind::Outside {
                severity,
                ..
            } && severity == Severity::Warning);
        assert forall|y: DiagnosticView| #[trigger]
            said_of_items(db, impl_def_id, d, y) <==> items.contains(y) by {
            lemma_items_say(db, impl_def_id, d, y);
        }
        assert(error_free(items) <==> sound) by {
            if error_free(items) {
                assert forall|y: DiagnosticView| #[trigger]
                    said_of_items(db, impl_def_id, d, y) implies (y.kind matches
                    SemanticDiagnosticKind::Outside { severity, .. } && severity
                    == Severity::Warning) by {
                    let i = choose|i: int| 0 <= i < items.len() && items[i] == y;
                    assert(!is_error(items[i]));
                }
            }
            if sound {
                assert forall|i: int| 0 <= i < items.len() implies !is_error(
                    #[trigger] items[i],
                ) by {
                    assert(items.contains(items[i]));
                    assert(said_of_items(db, impl_def_id, d, items[i]));
                }
            }
        }
        let rest = if error_free(items) && db.is_deref_impl(impl_def_id) {
            deref_diagnostics(
                db,
                impl_def_id,
                db.spec_impl_def_concrete_trait(impl_def_id)->Ok_0,
            )
        } else {
            seq![]
        };
        lemma_concat_members(items, rest, x);
    }
}

/// The report of an impl starts with the diagnostics of its definition, in their order.
pub proof fn law_definition_reports_start_with_the_definition(
    db: SemanticGroup,
    impl_def_id: ImplDefId,
    d: DefinitionView,
)
    requires
        db.spec_definition(impl_def_id) == Ok::<_, DiagnosticAdded>(d),
    ensures
        d.diagnostics.is_prefix_of(db.definition_report(impl_def_id)),
{
}

} // verus!
