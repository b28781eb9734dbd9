//! Where impls are looked for.

use std::cmp::Ordering;

use vstd::prelude::*;

use crate::collections::{copy_ids, same_ids, Id, Key};
use crate::ids::{CrateId, GenericParamId, ImplId, ModuleId, SubmoduleId};
use crate::model::UninferredImpl;

verus! {

/// An impl or a module in which impls are looked for.
#[derive(Clone, Copy, PartialEq, Eq, Ord, Structural, Debug)]
pub enum ImplOrModuleById {
    Impl(ImplId),
    Module(ModuleId),
}

impl View for ImplOrModuleById {
    type V = ImplOrModuleById;

    open spec fn view(&self) -> ImplOrModuleById {
        *self
    }
}

impl Key for ImplOrModuleById {
    fn same(&self, other: &Self) -> (res: bool) {
        *self == *other
    }

    fn dup(&self) -> (res: Self) {
        *self
    }
}

impl Id for ImplOrModuleById {
    fn equals(self, other: Self) -> (res: bool) {
        self == other
    }
}

impl From<ImplId> for ImplOrModuleById {
    fn from(impl_id: ImplId) -> (res: Self) {
        ImplOrModuleById::Impl(impl_id)
    }
}

impl vstd::std_specs::convert::FromSpecImpl<ImplId> for ImplOrModuleById {
    open spec fn obeys_from_spec() -> bool {
        true
    }

    open spec fn from_spec(impl_id: ImplId) -> ImplOrModuleById {
        ImplOrModuleById::Impl(impl_id)
    }
}

impl From<ModuleId> for ImplOrModuleById {
    fn from(module_id: ModuleId) -> (res: Self) {
        ImplOrModuleById::Module(module_id)
    }
}

impl vstd::std_specs::convert::FromSpecImpl<ModuleId> for ImplOrModuleById {
    open spec fn obeys_from_spec() -> bool {
        true
    }

    open spec fn from_spec(module_id: ModuleId) -> ImplOrModuleById {
        ImplOrModuleById::Module(module_id)
    }
}

impl ImplOrModuleById {
    /// The group of the scope: impls, then crate roots, then submodules.
    pub open spec fn group(self) -> int {
        match self {
            ImplOrModuleById::Impl(_) => 0,
            ImplOrModuleById::Module(ModuleId::CrateRoot(_)) => 1,
            ImplOrModuleById::Module(ModuleId::Submodule(_)) => 2,
        }
    }

    /// The number of the scope within its group.
    pub open spec fn number(self) -> u64 {
        match self {
            ImplOrModuleById::Impl(imp) => imp.0,
            ImplOrModuleById::Module(ModuleId::CrateRoot(crate_id)) => crate_id.0,
            ImplOrModuleById::Module(ModuleId::Submodule(module_id)) => module_id.0,
        }
    }

    /// Whether this scope comes before the other.
    pub open spec fn before(self, other: Self) -> bool {
        self.group() < other.group() || self.group() == other.group() && self.number()
            < other.number()
    }

    /// The order of the scopes.
    pub open spec fn order(self, other: Self) -> Ordering {
        if self.before(other) {
            Ordering::Less
        } else if other.before(self) {
            Ordering::Greater
        } else {
            Ordering::Equal
        }
    }

    pub fn cmp(&self, other: &Self) -> (res: Ordering)
        ensures
            res == self.order(*other),
            res == Ordering::Equal <==> *self == *other,
    {
        match (self, other) {
            (ImplOrModuleById::Impl(imp), ImplOrModuleById::Impl(other_impl)) => {
                cmp_numbers(imp.0, other_impl.0)
            },
            (ImplOrModuleById::Module(module), ImplOrModuleById::Module(other_module)) => match (
                module,
                other_module,
            ) {
                (ModuleId::CrateRoot(crate_id), ModuleId::CrateRoot(other_crate_id)) => {
                    cmp_numbers(crate_id.0, other_crate_id.0)
                },
                (ModuleId::CrateRoot(_), ModuleId::Submodule(_)) => Ordering::Less,
                (ModuleId::Submodule(_), ModuleId::CrateRoot(_)) => Ordering::Greater,
                (ModuleId::Submodule(module_id), ModuleId::Submodule(other_module_id)) => {
                    cmp_numbers(module_id.0, other_module_id.0)
                },
            },
            (ImplOrModuleById::Impl(_), ImplOrModuleById::Module(_)) => Ordering::Less,
            (ImplOrModuleById::Module(_), ImplOrModuleById::Impl(_)) => Ordering::Greater,
        }
    }
}

impl ImplOrModuleById {
    /// Whether this scope comes before the other.
    pub fn comes_before(&self, other: &Self) -> (res: bool)
        ensures
            res == self.before(*other),
    {
        match self.cmp(other) {
            Ordering::Less => true,
            Ordering::Equal => false,
            Ordering::Greater => false,
        }
    }
}

fn cmp_numbers(a: u64, b: u64) -> (res: Ordering)
    ensures
        res == if a < b {
            Ordering::Less
        } else if b < a {
            Ordering::Greater
        } else {
            Ordering::Equal
        },
{
    if a < b {
        Ordering::Less
    } else if b < a {
        Ordering::Greater
    } else {
        Ordering::Equal
    }
}

impl PartialOrd for ImplOrModuleById {
    fn partial_cmp(&self, other: &Self) -> (res: Option<Ordering>) {
        Some(self.cmp(other))
    }
}

impl vstd::std_specs::cmp::PartialOrdSpecImpl for ImplOrModuleById {
    open spec fn obeys_partial_cmp_spec() -> bool {
        true
    }

    open spec fn partial_cmp_spec(&self, other: &Self) -> Option<Ordering> {
        Some(self.order(*other))
    }
}

/// The order of the scopes is a strict total order: no scope comes before itself, the order is
/// transitive, and of two different scopes exactly one comes first.
pub proof fn law_scope_order(a: ImplOrModuleById, b: ImplOrModuleById, c: ImplOrModuleById)
    ensures
        !a.before(a),
        a.before(b) && b.before(c) ==> a.before(c),
        a.before(b) ==> !b.before(a),
        a == b || a.before(b) || b.before(a),
{
}

/// Whether the scopes stand in order, without repetition.
pub open spec fn sorted_scopes(s: Seq<ImplOrModuleById>) -> bool {
    forall|i: int, j: int| 0 <= i < j < s.len() ==> (#[trigger] s[i]).before(#[trigger] s[j])
}

/// A sorted list of scopes is fixed by its members.
pub proof fn law_sorted_scopes_unique(a: Seq<ImplOrModuleById>, b: Seq<ImplOrModuleById>)
    requires
        sorted_scopes(a),
        sorted_scopes(b),
        forall|x: ImplOrModuleById| a.contains(x) <==> b.contains(x),
    ensures
        a == b,
    decreases a.len(),
{
    if a.len() == 0 {
        if b.len() > 0 {
            assert(b.contains(b[0]));
        }
        assert(a =~= b);
    } else {
        assert(a.contains(a.last()));
        let i = choose|i: int| 0 <= i < b.len() && b[i] == a.last();
        assert(b.contains(b.last()));
        let j = choose|j: int| 0 <= j < a.len() && a[j] == b.last();
        assert(a.last() == b.last()) by {
            if i < b.len() - 1 {
                assert(b[i].before(b[b.len() - 1]));
                if j < a.len() - 1 {
                    assert(a[j].before(a[a.len() - 1]));
                }
            }
        }
        let a0 = a.drop_last();
        let b0 = b.drop_last();
        assert forall|x: ImplOrModuleById| a0.contains(x) implies b0.contains(x) by {
            let k = choose|k: int| 0 <= k < a0.len() && a0[k] == x;
            assert(a[k].before(a[a.len() - 1]));
            assert(a.contains(x));
            let m = choose|m: int| 0 <= m < b.len() && b[m] == x;
            assert(m != b.len() - 1);
            assert(b0[m] == x);
        }
        assert forall|x: ImplOrModuleById| b0.contains(x) implies a0.contains(x) by {
            let k = choose|k: int| 0 <= k < b0.len() && b0[k] == x;
            assert(b[k].before(b[b.len() - 1]));
            assert(b.contains(x));
            let m = choose|m: int| 0 <= m < a.len() && a[m] == x;
            assert(m != a.len() - 1);
            assert(a0[m] == x);
        }
        law_sorted_scopes_unique(a0, b0);
        assert(a =~= a0.push(a.last()));
        assert(b =~= b0.push(b.last()));
    }
}

/// A set of scopes, kept in order.
pub struct ScopeSet {
    scopes: Vec<ImplOrModuleById>,
}

impl View for ScopeSet {
    type V = Seq<ImplOrModuleById>;

    closed spec fn view(&self) -> Seq<ImplOrModuleById> {
        self.scopes@
    }
}

impl ScopeSet {
    #[verifier::type_invariant]
    closed spec fn inv(self) -> bool {
        sorted_scopes(self@)
    }

    pub fn new() -> (res: Self)
        ensures
            res@ == Seq::<ImplOrModuleById>::empty(),
    {
        ScopeSet { scopes: Vec::new() }
    }

    /// The number of scopes, which stand in order.
    pub fn len(&self) -> (res: usize)
        ensures
            res == self@.len(),
            sorted_scopes(self@),
    {
        proof {
            use_type_invariant(self);
        }
        self.scopes.len()
    }

    /// The scope at a position.
    pub fn at(&self, i: usize) -> (res: ImplOrModuleById)
        requires
            i < self@.len(),
        ensures
            res == self@[i as int],
    {
        self.scopes[i]
    }

    pub fn contains(&self, x: &ImplOrModuleById) -> (res: bool)
        ensures
            res == self@.contains(*x),
    {
        crate::collections::has_id(&self.scopes, *x)
    }

    /// Adds a scope; says whether it is new.
    pub fn insert(&mut self, x: ImplOrModuleById) -> (res: bool)
        ensures
            res == !old(self)@.contains(x),
            forall|y: ImplOrModuleById|
                #![trigger final(self)@.contains(y)]
                final(self)@.contains(y) <==> old(self)@.contains(y) || y == x,
            sorted_scopes(final(self)@),
    {
        proof {
            use_type_invariant(&*self);
        }
        let ghost old_scopes = self@;
        let mut i: usize = 0;
        while i < self.scopes.len()
            invariant
                self@ == self.scopes@,
                self@ == old_scopes,
                sorted_scopes(self@),
                i <= self.scopes.len(),
                forall|j: int| 0 <= j < i ==> (#[trigger] self@[j]).before(x),
            ensures
                i == self@.len() || x.before(self@[i as int]),
            decreases self.scopes.len() - i,
        {
            if self.scopes[i] == x {
                assert(self@[i as int] == x);
                return false;
            }
            if x.comes_before(&self.scopes[i]) {
                break ;
            }
            i += 1;
        }
        let mut scopes: Vec<ImplOrModuleById> = Vec::new();
        std::mem::swap(&mut scopes, &mut self.scopes);
        scopes.insert(i, x);
        let ghost t = scopes@;
        assert(t =~= old_scopes.insert(i as int, x));
        assert forall|a: int, b: int| 0 <= a < b < t.len() implies (#[trigger] t[a]).before(
            #[trigger] t[b],
        ) by {
            if a < i && b > i {
                assert(old_scopes[a].before(old_scopes[b - 1]));
            } else if a == i && b > i {
                if b - 1 > i {
                    assert(old_scopes[i as int].before(old_scopes[b - 1]));
                }
            } else if b == i {
                assert(old_scopes[a].before(x));
            } else if b < i {
                assert(old_scopes[a].before(old_scopes[b]));
            } else {
                assert(old_scopes[a - 1].before(old_scopes[b - 1]));
            }
        }
        assert(!old_scopes.contains(x)) by {
            if old_scopes.contains(x) {
                let k = choose|k: int| 0 <= k < old_scopes.len() && old_scopes[k] == x;
                if k < i {
                    assert(old_scopes[k].before(x));
                } else if k > i {
                    assert(old_scopes[i as int].before(old_scopes[k]));
                }
            }
        }
        assert forall|y: ImplOrModuleById| #![trigger t.contains(y)]
            t.contains(y) <==> old_scopes.contains(y) || y == x by {
            if old_scopes.contains(y) {
                let k = choose|k: int| 0 <= k < old_scopes.len() && old_scopes[k] == y;
                if k < i {
                    assert(t[k] == y);
                } else {
                    assert(t[k + 1] == y);
                }
            }
            if y == x {
                assert(t[i as int] == y);
            }
            if t.contains(y) {
                let k = choose|k: int| 0 <= k < t.len() && t[k] == y;
                if k < i {
                    assert(old_scopes[k] == y);
                } else if k > i {
                    assert(old_scopes[k - 1] == y);
                }
            }
        }
        *self = ScopeSet { scopes };
        true
    }

    fn copy(&self) -> (res: ScopeSet)
        ensures
            res@ == self@,
    {
        proof {
            use_type_invariant(self);
        }
        let scopes = copy_ids(&self.scopes);
        assert(scopes@ == self@);
        ScopeSet { scopes }
    }
}

/// Where impls are looked for: scopes, and the generic parameters that are impls themselves.
pub struct ImplLookupContext {
    pub modules_and_impls: ScopeSet,
    pub generic_params: Vec<GenericParamId>,
}

/// A lookup context, with its lists as sequences.
#[verifier::ext_equal]
pub struct ContextView {
    pub modules_and_impls: Seq<ImplOrModuleById>,
    pub generic_params: Seq<GenericParamId>,
}

impl View for ImplLookupContext {
    type V = ContextView;

    open spec fn view(&self) -> ContextView {
        ContextView {
            modules_and_impls: self.modules_and_impls@,
            generic_params: self.generic_params@,
        }
    }
}

impl Key for ImplLookupContext {
    fn same(&self, other: &Self) -> (res: bool) {
        same_ids(&self.modules_and_impls.scopes, &other.modules_and_impls.scopes) && same_ids(
            &self.generic_params,
            &other.generic_params,
        )
    }

    fn dup(&self) -> (res: Self) {
        ImplLookupContext {
            modules_and_impls: self.modules_and_impls.copy(),
            generic_params: copy_ids(&self.generic_params),
        }
    }
}

/// The scope that a candidate impl adds to a lookup.
pub open spec fn extending_scope(imp: UninferredImpl) -> Option<ImplOrModuleById> {
    match imp {
        UninferredImpl::Def(impl_def_id) => Some(
            ImplOrModuleById::Module(impl_def_id.module_file_id.0),
        ),
        UninferredImpl::ImplAlias(impl_alias_id) => Some(
            ImplOrModuleById::Module(impl_alias_id.module_file_id.0),
        ),
        UninferredImpl::GenericParam(param) => Some(
            ImplOrModuleById::Module(param.module_file_id.0),
        ),
        UninferredImpl::ImplImpl(impl_impl_id) => Some(
            ImplOrModuleById::Impl(impl_impl_id.impl_id),
        ),
        UninferredImpl::GeneratedImpl(_) => None,
    }
}

/// Whether the second list of scopes is the first with one more member, in order.
pub open spec fn scope_added(
    before: Seq<ImplOrModuleById>,
    after: Seq<ImplOrModuleById>,
    x: ImplOrModuleById,
) -> bool {
    &&& sorted_scopes(after)
    &&& forall|y: ImplOrModuleById|
        #![trigger after.contains(y)]
        after.contains(y) <==> before.contains(y) || y == x
}

impl ImplLookupContext {
    pub fn new(module_id: ModuleId, generic_params: Vec<GenericParamId>) -> (res: Self)
        ensures
            res@.modules_and_impls == seq![ImplOrModuleById::Module(module_id)],
            res@.generic_params == generic_params@,
    {
        let mut modules_and_impls = ScopeSet::new();
        let scope: ImplOrModuleById = ImplOrModuleById::Module(module_id);
        modules_and_impls.insert(scope);
        assert(modules_and_impls@ == seq![scope]) by {
            assert forall|x: ImplOrModuleById|
                modules_and_impls@.contains(x) <==> seq![scope].contains(x) by {
                assert(seq![scope][0] == scope);
            }
            law_sorted_scopes_unique(modules_and_impls@, seq![scope]);
        }
        ImplLookupContext { modules_and_impls, generic_params }
    }

    /// Adds the scope in which a candidate impl stands; generated impls do not extend the lookup
    /// context.
    pub fn insert_lookup_scope(&mut self, imp: &UninferredImpl)
        ensures
            final(self)@.generic_params == old(self)@.generic_params,
            match extending_scope(*imp) {
                Some(x) => scope_added(
                    old(self)@.modules_and_impls,
                    final(self)@.modules_and_impls,
                    x,
                ),
                None => final(self)@ == old(self)@,
            },
    {
        let item: ImplOrModuleById = match imp {
            UninferredImpl::Def(impl_def_id) => {
                ImplOrModuleById::Module(impl_def_id.module_file_id.0)
            },
            UninferredImpl::ImplAlias(impl_alias_id) => {
                ImplOrModuleById::Module(impl_alias_id.module_file_id.0)
            },
            UninferredImpl::GenericParam(param) => {
                ImplOrModuleById::Module(param.module_file_id.0)
            },
            UninferredImpl::ImplImpl(impl_impl_id) => ImplOrModuleById::Impl(impl_impl_id.impl_id),
            UninferredImpl::GeneratedImpl(_) => {
                return ;
            },
        };
        self.modules_and_impls.insert(item);
    }

    /// Adds a module; says whether it is new.
    pub fn insert_module(&mut self, module_id: ModuleId) -> (res: bool)
        ensures
            res == !old(self)@.modules_and_impls.contains(ImplOrModuleById::Module(module_id)),
            final(self)@.generic_params == old(self)@.generic_params,
            scope_added(
                old(self)@.modules_and_impls,
                final(self)@.modules_and_impls,
                ImplOrModuleById::Module(module_id),
            ),
    {
        self.modules_and_impls.insert(ImplOrModuleById::Module(module_id))
    }

    /// Adds an impl; says whether it is new.
    pub fn insert_impl(&mut self, impl_id: ImplId) -> (res: bool)
        ensures
            res == !old(self)@.modules_and_impls.contains(ImplOrModuleById::Impl(impl_id)),
            final(self)@.generic_params == old(self)@.generic_params,
            scope_added(
                old(self)@.modules_and_impls,
                final(self)@.modules_and_impls,
                ImplOrModuleById::Impl(impl_id),
            ),
    {
        self.modules_and_impls.insert(ImplOrModuleById::Impl(impl_id))
    }
}

/// Two scopes in order, or one where they are the same.
pub open spec fn two_scopes(a: ImplOrModuleById, b: ImplOrModuleById) -> Seq<ImplOrModuleById> {
    if a == b {
        seq![a]
    } else if a.before(b) {
        seq![a, b]
    } else {
        seq![b, a]
    }
}

/// Adding one scope to another gives the two in order.
pub proof fn lemma_two_scopes(a: ImplOrModuleById, b: ImplOrModuleById, r: Seq<ImplOrModuleById>)
    requires
        scope_added(seq![a], r, b),
    ensures
        r == two_scopes(a, b),
{
    let t = two_scopes(a, b);
    law_scope_order(a, b, a);
    assert(sorted_scopes(t));
    assert forall|z: ImplOrModuleById| r.contains(z) <==> t.contains(z) by {
        assert(r.contains(z) <==> seq![a].contains(z) || z == b);
        assert(seq![a][0] == a);
        if a == b || !a.before(b) {
            assert(t.last() == a);
            assert(t[0] == b);
        } else {
            assert(t[0] == a && t[1] == b);
        }
    }
    law_sorted_scopes_unique(r, t);
}

/// Adding the scopes of candidates in either order leaves the same lookup scopes.
pub proof fn law_scope_insertions_commute(
    s: Seq<ImplOrModuleById>,
    x: ImplOrModuleById,
    y: ImplOrModuleById,
    sx: Seq<ImplOrModuleById>,
    sy: Seq<ImplOrModuleById>,
    sxy: Seq<ImplOrModuleById>,
    syx: Seq<ImplOrModuleById>,
)
    requires
        scope_added(s, sx, x),
        scope_added(sx, sxy, y),
        scope_added(s, sy, y),
        scope_added(sy, syx, x),
    ensures
        sxy == syx,
{
    assert forall|z: ImplOrModuleById| sxy.contains(z) <==> syx.contains(z) by {
        assert(sx.contains(z) <==> s.contains(z) || z == x);
        assert(sy.contains(z) <==> s.contains(z) || z == y);
    }
    law_sorted_scopes_unique(sxy, syx);
}

// --- Laws ---

/// Impls come before modules, and crate roots before submodules; two of one kind come in the order
/// of their numbers.
pub proof fn law_scopes_come_by_kind_and_number(a: u64, b: u64)
    ensures
        ({
            let imp = |n: u64| ImplOrModuleById::Impl(ImplId(n));
            let root = |n: u64| ImplOrModuleById::Module(ModuleId::CrateRoot(CrateId(n)));
            let submodule = |n: u64| ImplOrModuleById::Module(ModuleId::Submodule(SubmoduleId(n)));
            &&& imp(a).before(imp(b)) <==> a < b
            &&& root(a).before(root(b)) <==> a < b
            &&& submodule(a).before(submodule(b)) <==> a < b
            &&& imp(a).before(root(b)) && !root(b).before(imp(a))
            &&& imp(a).before(submodule(b)) && !submodule(b).before(imp(a))
            &&& root(a).before(submodule(b)) && !submodule(b).before(root(a))
        }),
{
}

/// A candidate adds the scope that it stands in: the module of the file of a definition, an alias or
/// a parameter, and the impl of an item of an impl. A generated one adds none.
pub proof fn law_candidates_add_the_scope_they_stand_in(
    imp: UninferredImpl,
    before: Seq<ImplOrModuleById>,
    after: Seq<ImplOrModuleById>,
)
    requires
        extending_scope(imp) matches Some(x) ==> scope_added(before, after, x),
        extending_scope(imp) is None ==> after == before,
    ensures
        forall|y: ImplOrModuleById| before.contains(y) ==> #[trigger] after.contains(y),
        match imp {
            UninferredImpl::Def(id) => after.contains(
                ImplOrModuleById::Module(id.module_file_id.0),
            ),
            UninferredImpl::ImplAlias(id) => after.contains(
                ImplOrModuleById::Module(id.module_file_id.0),
            ),
            UninferredImpl::GenericParam(id) => after.contains(
                ImplOrModuleById::Module(id.module_file_id.0),
            ),
            UninferredImpl::ImplImpl(id) => after.contains(ImplOrModuleById::Impl(id.impl_id)),
            UninferredImpl::GeneratedImpl(_) => after == before,
        },
        forall|y: ImplOrModuleById, z: ImplOrModuleById|
            #![trigger after.contains(y), after.contains(z)]
            after.contains(y) && after.contains(z) && !before.contains(y) && !before.contains(z)
                ==> y == z,
{
}

/// Scopes are compared by which of them comes before the other, and only a scope and itself compare
/// equal.
pub proof fn law_scopes_are_compared_by_their_order(a: ImplOrModuleById, b: ImplOrModuleById)
    ensures
        a.order(b) == Ordering::Less <==> a.before(b),
        a.order(b) == Ordering::Greater <==> b.before(a),
        a.order(b) == Ordering::Equal <==> a == b,
{
    law_scope_order(a, b, a);
}

} // verus!
