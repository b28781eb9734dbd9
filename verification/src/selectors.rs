//! What the body of an impl holds, by name and by kind.

use vstd::prelude::*;

use crate::collections::{
    assoc_extend, has_key, keys_of, law_last_entries_stay, law_set_extend, lemma_concat_members,
    lemma_set_extend_concat, lookup, set_extend, views, Key, OrderedHashMap, OrderedHashSet,
};
use crate::db::SemanticGroup;
use crate::declaration::{impl_def_resolver_data, impl_def_trait};
use crate::definition::{
    is_last_of_name, is_written, law_definitions_list_what_is_written, names_item,
    priv_impl_definition_data, written_items, ImplItemInfo,
};
use crate::diagnostics::{skip_diagnostic, DiagnosticAdded, Maybe};
use crate::facts::{ResolverData, ResolverId};
use crate::ids::{
    ConcreteImplId, ImplConstantDefId, ImplDefId, ImplFunctionId, ImplImplDefId, ImplItemId,
    ImplTypeDefId, SmolStrId, TraitConstantId, TraitFunctionId, TraitId, TraitImplId, TraitTypeId,
    UseId,
};
use crate::syntax::{ImplItem, ItemConstant, ItemImpl, ItemImplAlias, ItemTypeAlias};

verus! {

/// The keys of a table, in order.
fn table_keys<K: Key + Copy, V>(table: &OrderedHashMap<K, V>) -> (res: Vec<K>)
    ensures
        views(res@) == keys_of(table@),
{
    let mut res: Vec<K> = Vec::new();
    let count: usize = table.len();
    let mut i: usize = 0;
    while i < count
        invariant
            i <= count == table@.len(),
            views(res@) =~= keys_of(table@).take(i as int),
        decreases count - i,
    {
        let (k, _) = table.entry_at(i);
        let ghost before = res@;
        res.push(*k);
        assert(views(res@) =~= views(before).push(table@[i as int].0));
        i += 1;
    }
    assert(views(res@) =~= keys_of(table@));
    res
}

/// The functions of an impl, each with its name.
pub open spec fn named_functions<V>(functions: Seq<(ImplFunctionId, V)>) -> Seq<
    (SmolStrId, ImplFunctionId),
> {
    Seq::new(functions.len(), |i: int| (functions[i].0.name, functions[i].0))
}

/// The functions of an impl by their names.
pub fn impl_functions(db: &SemanticGroup, impl_def_id: ImplDefId) -> (res: Maybe<
    OrderedHashMap<SmolStrId, ImplFunctionId>,
>)
    requires
        db.wf(),
        db.definable(impl_def_id),
    ensures
        match res {
            Ok(functions) => db.spec_definition(impl_def_id) matches Ok(d) && functions@
                == assoc_extend(Seq::empty(), named_functions(d.functions)),
            Err(_) => db.spec_definition(impl_def_id) is Err,
        },
{
    let data = match priv_impl_definition_data(db, impl_def_id) {
        Ok(data) => data,
        Err(e) => return Err(e),
    };
    let mut functions: OrderedHashMap<SmolStrId, ImplFunctionId> = OrderedHashMap::new();
    let ghost named = named_functions(data@.functions);
    let count: usize = data.function_asts.len();
    let mut i: usize = 0;
    assert(named.take(0) =~= Seq::empty());
    while i < count
        invariant
            i <= count == data.function_asts@.len(),
            named == named_functions(data.function_asts@),
            functions@ == assoc_extend(Seq::empty(), named.take(i as int)),
        decreases count - i,
    {
        assert(named.take(i + 1).drop_last() =~= named.take(i as int));
        let (function_id, _) = data.function_asts.entry_at(i);
        functions.insert(function_id.name, *function_id);
        i += 1;
    }
    assert(named.take(count as int) =~= named);
    Ok(functions)
}

/// The first function of some functions that has a name.
pub open spec fn function_named<V>(
    functions: Seq<(ImplFunctionId, V)>,
    name: SmolStrId,
    i: int,
) -> Option<ImplFunctionId>
    decreases functions.len() - i,
{
    if i < 0 || i >= functions.len() {
        None
    } else if functions[i].0.name == name {
        Some(functions[i].0)
    } else {
        function_named(functions, name, i + 1)
    }
}

/// The function of an impl that implements a trait function: the first of that name.
pub fn impl_function_by_trait_function(
    db: &SemanticGroup,
    impl_def_id: ImplDefId,
    trait_function_id: TraitFunctionId,
) -> (res: Maybe<Option<ImplFunctionId>>)
    requires
        db.wf(),
        db.definable(impl_def_id),
    ensures
        res == match db.spec_definition(impl_def_id) {
            Ok(d) => Ok(function_named(d.functions, trait_function_id.name, 0)),
            Err(_) => Err(DiagnosticAdded),
        },
{
    let data = match priv_impl_definition_data(db, impl_def_id) {
        Ok(data) => data,
        Err(e) => return Err(e),
    };
    let count: usize = data.function_asts.len();
    let mut i: usize = 0;
    while i < count
        invariant
            i <= count == data.function_asts@.len(),
            function_named(data.function_asts@, trait_function_id.name, i as int) == function_named(
                data.function_asts@,
                trait_function_id.name,
                0,
            ),
            db.spec_definition(impl_def_id) == Ok::<_, DiagnosticAdded>(data@),
        decreases count - i,
    {
        let (impl_function_id, _) = data.function_asts.entry_at(i);
        if impl_function_id.name == trait_function_id.name {
            return Ok(Some(*impl_function_id));
        }
        i += 1;
    }
    Ok(None)
}

impl SemanticGroup {
    /// The item of an impl that has a name.
    pub open spec fn spec_impl_item_by_name(
        self,
        impl_def_id: ImplDefId,
        name: SmolStrId,
    ) -> Maybe<Option<ImplItemId>> {
        match self.spec_definition(impl_def_id) {
            Ok(d) => match lookup(d.by_name, name) {
                Some(info) => Ok(Some(info.id)),
                None => Ok(None),
            },
            Err(e) => Err(e),
        }
    }

    /// Whether an impl is one of a trait, as far as its path is resolved.
    pub open spec fn implements(self, impl_def_id: ImplDefId, trait_id: TraitId) -> bool {
        self.spec_impl_def_trait(impl_def_id) matches Ok(t) ==> t == trait_id
    }

    /// The type of an impl that implements a trait type.
    pub open spec fn spec_impl_type_by_trait_type(
        self,
        impl_def_id: ImplDefId,
        trait_type_id: TraitTypeId,
    ) -> Maybe<ImplTypeDefId> {
        match (
            self.spec_impl_def_trait(impl_def_id),
            self.spec_impl_item_by_name(impl_def_id, trait_type_id.name),
        ) {
            (Ok(_), Ok(Some(ImplItemId::Type(id)))) => Ok(id),
            _ => Err(DiagnosticAdded),
        }
    }

    /// The constant of an impl that implements a trait constant.
    pub open spec fn spec_impl_constant_by_trait_constant(
        self,
        impl_def_id: ImplDefId,
        trait_constant_id: TraitConstantId,
    ) -> Maybe<ImplConstantDefId> {
        match (
            self.spec_impl_def_trait(impl_def_id),
            self.spec_impl_item_by_name(impl_def_id, trait_constant_id.name),
        ) {
            (Ok(_), Ok(Some(ImplItemId::Constant(id)))) => Ok(id),
            _ => Err(DiagnosticAdded),
        }
    }

    /// The impl of an impl that implements a trait impl.
    pub open spec fn spec_impl_impl_by_trait_impl(
        self,
        impl_def_id: ImplDefId,
        trait_impl_id: TraitImplId,
    ) -> Maybe<ImplImplDefId> {
        match (
            self.spec_impl_def_trait(impl_def_id),
            self.spec_impl_item_by_name(impl_def_id, trait_impl_id.name),
        ) {
            (Ok(_), Ok(Some(ImplItemId::Impl(id)))) => Ok(id),
            _ => Err(DiagnosticAdded),
        }
    }

    /// Whether a trait impl is one that an impl does not name.
    pub open spec fn spec_is_implicit_impl_impl(
        self,
        impl_def_id: ImplDefId,
        trait_impl_id: TraitImplId,
    ) -> Maybe<bool> {
        match (self.spec_impl_def_trait(impl_def_id), self.spec_definition(impl_def_id)) {
            (Ok(_), Ok(d)) => Ok(has_key(d.implicit_impls, trait_impl_id.name)),
            _ => Err(DiagnosticAdded),
        }
    }

    /// The `use` items that a record of name resolution went through.
    pub open spec fn spec_used_uses(self, id: ResolverId) -> Seq<UseId> {
        match lookup(self.facts.used_uses@, id) {
            Some(uses) => uses@,
            None => seq![],
        }
    }

    /// The `use` items of some records, one record after the other.
    pub open spec fn spec_records_uses(self, records: Seq<ResolverData>) -> Seq<UseId>
        decreases records.len(),
    {
        if records.len() == 0 {
            seq![]
        } else {
            self.spec_records_uses(records.drop_last()) + self.spec_used_uses(records.last().id)
        }
    }

    /// The `use` items of an impl item.
    pub open spec fn spec_item_uses(self, id: ImplItemId) -> Seq<UseId> {
        match lookup(self.facts.item_resolver_data@, id) {
            Some(records) => self.spec_records_uses(records@),
            None => seq![],
        }
    }

    /// The `use` items of some impl items, one item after the other.
    pub open spec fn spec_items_uses(self, items: Seq<(SmolStrId, ImplItemInfo)>) -> Seq<UseId>
        decreases items.len(),
    {
        if items.len() == 0 {
            seq![]
        } else {
            self.spec_items_uses(items.drop_last()) + self.spec_item_uses(items.last().1.id)
        }
    }
}

/// The item of an impl that has a name.
pub fn impl_item_by_name(db: &SemanticGroup, impl_def_id: ImplDefId, name: SmolStrId) -> (res:
    Maybe<Option<ImplItemId>>)
    requires
        db.wf(),
        db.definable(impl_def_id),
    ensures
        res == db.spec_impl_item_by_name(impl_def_id, name),
{
    match priv_impl_definition_data(db, impl_def_id) {
        Ok(data) => match data.item_id_by_name.get(&name) {
            Some(info) => Ok(Some(info.id)),
            None => Ok(None),
        },
        Err(e) => Err(e),
    }
}

/// The item of an impl that has a name, with its feature kind.
pub fn impl_item_info_by_name(
    db: &SemanticGroup,
    impl_def_id: ImplDefId,
    name: SmolStrId,
) -> (res: Maybe<Option<ImplItemInfo>>)
    requires
        db.wf(),
        db.definable(impl_def_id),
    ensures
        res == match db.spec_definition(impl_def_id) {
            Ok(d) => Ok(lookup(d.by_name, name)),
            Err(_) => Err(DiagnosticAdded),
        },
{
    match priv_impl_definition_data(db, impl_def_id) {
        Ok(data) => Ok(data.get_impl_item_info(name)),
        Err(e) => Err(e),
    }
}

/// The trait impl of a name that an impl does not name.
pub fn impl_implicit_impl_by_name(
    db: &SemanticGroup,
    impl_def_id: ImplDefId,
    name: SmolStrId,
) -> (res: Maybe<Option<TraitImplId>>)
    requires
        db.wf(),
        db.definable(impl_def_id),
    ensures
        res == match db.spec_definition(impl_def_id) {
            Ok(d) => Ok(lookup(d.implicit_impls, name)),
            Err(_) => Err(DiagnosticAdded),
        },
{
    match priv_impl_definition_data(db, impl_def_id) {
        Ok(data) => match data.implicit_impls_id_by_name.get(&name) {
            Some(id) => Ok(Some(*id)),
            None => Ok(None),
        },
        Err(e) => Err(e),
    }
}

/// Adds the `use` items of one record.
fn add_uses(db: &SemanticGroup, id: ResolverId, uses: &mut OrderedHashSet<UseId>)
    ensures
        final(uses)@ == set_extend(old(uses)@, db.spec_used_uses(id)),
{
    if let Some(list) = db.facts.used_uses.get(&id) {
        assert(views(list@) =~= list@);
        uses.extend(list);
    }
}

/// Adds the `use` items of an impl item.
fn add_item_uses(db: &SemanticGroup, id: ImplItemId, uses: &mut OrderedHashSet<UseId>)
    ensures
        final(uses)@ == set_extend(old(uses)@, db.spec_item_uses(id)),
{
    let ghost before = uses@;
    if let Some(records) = db.facts.item_resolver_data.get(&id) {
        let mut i: usize = 0;
        assert(records@.take(0) =~= Seq::empty());
        while i < records.len()
            invariant
                i <= records.len(),
                uses@ == set_extend(before, db.spec_records_uses(records@.take(i as int))),
            decreases records.len() - i,
        {
            assert(records@.take(i + 1).drop_last() =~= records@.take(i as int));
            add_uses(db, records[i].id, uses);
            proof {
                lemma_set_extend_concat(
                    before,
                    db.spec_records_uses(records@.take(i as int)),
                    db.spec_used_uses(records@[i as int].id),
                );
            }
            i += 1;
        }
        assert(records@.take(records@.len() as int) =~= records@);
    }
}

/// The `use` items that the declaration and the items of an impl go through, each once.
pub fn impl_all_used_uses(db: &SemanticGroup, impl_def_id: ImplDefId) -> (res: Maybe<
    OrderedHashSet<UseId>,
>)
    requires
        db.wf(),
        db.definable(impl_def_id),
    ensures
        match res {
            Ok(uses) => db.spec_definition(impl_def_id) matches Ok(d) && uses@ == set_extend(
                Seq::empty(),
                db.spec_used_uses(
                    lookup(db.facts.impl_defs@, impl_def_id)->0.declaration.resolver_id,
                ) + db.spec_items_uses(d.by_name),
            ),
            Err(_) => db.spec_definition(impl_def_id) is Err,
        },
{
    let resolver_data = match impl_def_resolver_data(db, impl_def_id) {
        Ok(resolver_data) => resolver_data,
        Err(e) => return Err(e),
    };
    let mut all_used_uses: OrderedHashSet<UseId> = OrderedHashSet::new();
    add_uses(db, resolver_data.id, &mut all_used_uses);
    let data = match priv_impl_definition_data(db, impl_def_id) {
        Ok(data) => data,
        Err(e) => return Err(e),
    };
    let ghost declared = db.spec_used_uses(resolver_data.id);
    let ghost items = data.item_id_by_name@;
    let count: usize = data.item_id_by_name.len();
    let mut i: usize = 0;
    assert(items.take(0) =~= Seq::empty());
    assert(declared + Seq::<UseId>::empty() =~= declared);
    while i < count
        invariant
            items == data.item_id_by_name@,
            i <= count == items.len(),
            all_used_uses@ == set_extend(
                Seq::empty(),
                declared + db.spec_items_uses(items.take(i as int)),
            ),
        decreases count - i,
    {
        let ghost so_far = db.spec_items_uses(items.take(i as int));
        assert(items.take(i + 1).drop_last() =~= items.take(i as int));
        let (_, info) = data.item_id_by_name.entry_at(i);
        add_item_uses(db, info.id, &mut all_used_uses);
        proof {
            let own = db.spec_item_uses(info.id);
            lemma_set_extend_concat(Seq::empty(), declared + so_far, own);
            assert((declared + so_far) + own =~= declared + (so_far + own));
        }
        i += 1;
    }
    assert(items.take(count as int) =~= items);
    Ok(all_used_uses)
}

/// The associated types of an impl.
pub fn impl_types(db: &SemanticGroup, impl_def_id: ImplDefId) -> (res: Maybe<
    OrderedHashMap<ImplTypeDefId, ItemTypeAlias>,
>)
    requires
        db.wf(),
        db.definable(impl_def_id),
    ensures
        match res {
            Ok(types) => db.spec_definition(impl_def_id) matches Ok(d) && types@ == d.types,
            Err(_) => db.spec_definition(impl_def_id) is Err,
        },
{
    match priv_impl_definition_data(db, impl_def_id) {
        Ok(data) => Ok(data.item_type_asts),
        Err(e) => Err(e),
    }
}

/// The ids of the associated types of an impl.
pub fn impl_type_ids(db: &SemanticGroup, impl_def_id: ImplDefId) -> (res: Maybe<
    Vec<ImplTypeDefId>,
>)
    requires
        db.wf(),
        db.definable(impl_def_id),
    ensures
        match res {
            Ok(ids) => db.spec_definition(impl_def_id) matches Ok(d) && ids@ == keys_of(d.types),
            Err(_) => db.spec_definition(impl_def_id) is Err,
        },
{
    match impl_types(db, impl_def_id) {
        Ok(types) => {
            let ids = table_keys(&types);
            assert(views(ids@) =~= ids@);
            Ok(ids)
        },
        Err(e) => Err(e),
    }
}

/// The syntax of an associated type.
pub fn impl_type_by_id(db: &SemanticGroup, impl_type_id: ImplTypeDefId) -> (res: Maybe<
    Option<ItemTypeAlias>,
>)
    requires
        db.wf(),
        db.definable(impl_type_id.impl_def_id),
    ensures
        res == match db.spec_definition(impl_type_id.impl_def_id) {
            Ok(d) => Ok(lookup(d.types, impl_type_id)),
            Err(_) => Err(DiagnosticAdded),
        },
{
    match impl_types(db, impl_type_id.impl_def_id) {
        Ok(types) => match types.get(&impl_type_id) {
            Some(ast) => Ok(Some(*ast)),
            None => Ok(None),
        },
        Err(e) => Err(e),
    }
}

/// The type of an impl that implements a trait type.
pub fn impl_type_by_trait_type(
    db: &SemanticGroup,
    impl_def_id: ImplDefId,
    trait_type_id: TraitTypeId,
) -> (res: Maybe<ImplTypeDefId>)
    requires
        db.wf(),
        db.definable(impl_def_id),
        db.implements(impl_def_id, trait_type_id.trait_id),
        db.spec_impl_item_by_name(impl_def_id, trait_type_id.name) matches Ok(Some(id))
            ==> id is Type,
    ensures
        res == db.spec_impl_type_by_trait_type(impl_def_id, trait_type_id),
{
    if let Err(e) = impl_def_trait(db, impl_def_id) {
        return Err(e);
    }
    // If the trait type's name is not found, then a missing item diagnostic is reported.

    match impl_item_by_name(db, impl_def_id, trait_type_id.name) {
        Ok(Some(ImplItemId::Type(id))) => Ok(id),
        Ok(_) => Err(skip_diagnostic()),
        Err(e) => Err(e),
    }
}

/// The associated constants of an impl.
pub fn impl_constants(db: &SemanticGroup, impl_def_id: ImplDefId) -> (res: Maybe<
    OrderedHashMap<ImplConstantDefId, ItemConstant>,
>)
    requires
        db.wf(),
        db.definable(impl_def_id),
    ensures
        match res {
            Ok(constants) => db.spec_definition(impl_def_id) matches Ok(d) && constants@
                == d.constants,
            Err(_) => db.spec_definition(impl_def_id) is Err,
        },
{
    match priv_impl_definition_data(db, impl_def_id) {
        Ok(data) => Ok(data.item_constant_asts),
        Err(e) => Err(e),
    }
}

/// The constant of an impl that implements a trait constant.
pub fn impl_constant_by_trait_constant(
    db: &SemanticGroup,
    impl_def_id: ImplDefId,
    trait_constant_id: TraitConstantId,
) -> (res: Maybe<ImplConstantDefId>)
    requires
        db.wf(),
        db.definable(impl_def_id),
        db.implements(impl_def_id, trait_constant_id.trait_id),
        db.spec_impl_item_by_name(impl_def_id, trait_constant_id.name) matches Ok(Some(id))
            ==> id is Constant,
    ensures
        res == db.spec_impl_constant_by_trait_constant(impl_def_id, trait_constant_id),
{
    if let Err(e) = impl_def_trait(db, impl_def_id) {
        return Err(e);
    }
    // If the trait constant's name is not found, then a missing item diagnostic is reported.

    match impl_item_by_name(db, impl_def_id, trait_constant_id.name) {
        Ok(Some(ImplItemId::Constant(id))) => Ok(id),
        Ok(_) => Err(skip_diagnostic()),
        Err(e) => Err(e),
    }
}

/// The associated impls of an impl.
pub fn impl_impls(db: &SemanticGroup, impl_def_id: ImplDefId) -> (res: Maybe<
    OrderedHashMap<ImplImplDefId, ItemImplAlias>,
>)
    requires
        db.wf(),
        db.definable(impl_def_id),
    ensures
        match res {
            Ok(impls) => db.spec_definition(impl_def_id) matches Ok(d) && impls@ == d.impls,
            Err(_) => db.spec_definition(impl_def_id) is Err,
        },
{
    match priv_impl_definition_data(db, impl_def_id) {
        Ok(data) => Ok(data.item_impl_asts),
        Err(e) => Err(e),
    }
}

/// The ids of the associated impls of an impl.
pub fn impl_impl_ids(db: &SemanticGroup, impl_def_id: ImplDefId) -> (res: Maybe<
    Vec<ImplImplDefId>,
>)
    requires
        db.wf(),
        db.definable(impl_def_id),
    ensures
        match res {
            Ok(ids) => db.spec_definition(impl_def_id) matches Ok(d) && ids@ == keys_of(d.impls),
            Err(_) => db.spec_definition(impl_def_id) is Err,
        },
{
    match impl_impls(db, impl_def_id) {
        Ok(impls) => {
            let ids = table_keys(&impls);
            assert(views(ids@) =~= ids@);
            Ok(ids)
        },
        Err(e) => Err(e),
    }
}

/// The syntax of an associated impl.
pub fn impl_impl_by_id(db: &SemanticGroup, impl_impl_id: ImplImplDefId) -> (res: Maybe<
    Option<ItemImplAlias>,
>)
    requires
        db.wf(),
        db.definable(impl_impl_id.impl_def_id),
    ensures
        res == match db.spec_definition(impl_impl_id.impl_def_id) {
            Ok(d) => Ok(lookup(d.impls, impl_impl_id)),
            Err(_) => Err(DiagnosticAdded),
        },
{
    match impl_impls(db, impl_impl_id.impl_def_id) {
        Ok(impls) => match impls.get(&impl_impl_id) {
            Some(ast) => Ok(Some(*ast)),
            None => Ok(None),
        },
        Err(e) => Err(e),
    }
}

/// The impl of an impl that implements a trait impl.
pub fn impl_impl_by_trait_impl(
    db: &SemanticGroup,
    impl_def_id: ImplDefId,
    trait_impl_id: TraitImplId,
) -> (res: Maybe<ImplImplDefId>)
    requires
        db.wf(),
        db.definable(impl_def_id),
        db.implements(impl_def_id, trait_impl_id.trait_id),
        db.spec_impl_item_by_name(impl_def_id, trait_impl_id.name) matches Ok(Some(id))
            ==> id is Impl,
    ensures
        res == db.spec_impl_impl_by_trait_impl(impl_def_id, trait_impl_id),
{
    if let Err(e) = impl_def_trait(db, impl_def_id) {
        return Err(e);
    }
    // If the trait impl's name is not found, then a missing item diagnostic is reported.

    match impl_item_by_name(db, impl_def_id, trait_impl_id.name) {
        Ok(Some(ImplItemId::Impl(id))) => Ok(id),
        Ok(_) => Err(skip_diagnostic()),
        Err(e) => Err(e),
    }
}

/// Whether a trait impl is one that an impl does not name.
pub fn is_implicit_impl_impl(
    db: &SemanticGroup,
    impl_def_id: ImplDefId,
    trait_impl_id: TraitImplId,
) -> (res: Maybe<bool>)
    requires
        db.wf(),
        db.definable(impl_def_id),
        db.implements(impl_def_id, trait_impl_id.trait_id),
    ensures
        res == db.spec_is_implicit_impl_impl(impl_def_id, trait_impl_id),
{
    if let Err(e) = impl_def_trait(db, impl_def_id) {
        return Err(e);
    }
    match impl_implicit_impl_by_name(db, impl_def_id, trait_impl_id.name) {
        Ok(found) => Ok(found.is_some()),
        Err(e) => Err(e),
    }
}

impl ConcreteImplId {
    /// The impl definition of a concrete impl.
    pub fn impl_def_id(&self, db: &SemanticGroup) -> (res: ImplDefId)
        requires
            db.has_concrete_impl(*self),
        ensures
            res == db.spec_concrete_impl_long(*self).impl_def_id,
    {
        db.concrete_impl_long(*self).impl_def_id
    }

    /// The function of the impl definition that implements a trait function.
    pub fn get_impl_function(&self, db: &SemanticGroup, function: TraitFunctionId) -> (res: Maybe<
        Option<ImplFunctionId>,
    >)
        requires
            db.wf(),
            db.has_concrete_impl(*self),
            db.definable(db.spec_concrete_impl_long(*self).impl_def_id),
        ensures
            res == match db.spec_definition(db.spec_concrete_impl_long(*self).impl_def_id) {
                Ok(d) => Ok(function_named(d.functions, function.name, 0)),
                Err(_) => Err(DiagnosticAdded),
            },
    {
        impl_function_by_trait_function(db, self.impl_def_id(db), function)
    }
}

// --- Laws ---

/// A function that is found for a trait function is one of the impl, and has its name; one is
/// found wherever the impl has a function of that name.
pub proof fn law_functions_are_found_by_name<V>(
    functions: Seq<(ImplFunctionId, V)>,
    name: SmolStrId,
)
    ensures
        function_named(functions, name, 0) matches Some(id) ==> id.name == name && has_key(
            functions,
            id,
        ),
        function_named(functions, name, 0) is Some <==> exists|i: int|
            0 <= i < functions.len() && (#[trigger] functions[i]).0.name == name,
{
    lemma_function_named(functions, name, 0);
}

proof fn lemma_function_named<V>(functions: Seq<(ImplFunctionId, V)>, name: SmolStrId, from: int)
    requires
        0 <= from <= functions.len(),
    ensures
        function_named(functions, name, from) matches Some(id) ==> id.name == name && has_key(
            functions,
            id,
        ),
        function_named(functions, name, from) is Some <==> exists|i: int|
            from <= i < functions.len() && (#[trigger] functions[i]).0.name == name,
    decreases functions.len() - from,
{
    if from < functions.len() {
        lemma_function_named(functions, name, from + 1);
        assert(functions[from] == functions[from]);
    }
}

/// A trait impl that an impl names is not implicit, and one that the trait has and the impl does
/// not name is.
pub proof fn law_named_or_implicit(
    db: SemanticGroup,
    impl_def_id: ImplDefId,
    name: SmolStrId,
    trait_impl_id: TraitImplId,
)
    requires
        db.spec_definition(impl_def_id) is Ok,
        db.spec_impl_def_concrete_trait(impl_def_id) matches Ok(t) && db.spec_trait_impls(
            db.spec_trait_long(t).trait_id,
        ) matches Ok(impls) && impls.contains((name, trait_impl_id)),
    ensures
        ({
            let d = db.spec_definition(impl_def_id)->Ok_0;
            has_key(d.by_name, name) <==> !has_key(d.implicit_impls, name)
        }),
{
    let d = db.spec_definition(impl_def_id)->Ok_0;
    let t = db.spec_impl_def_concrete_trait(impl_def_id)->Ok_0;
    let impls = db.spec_trait_impls(db.spec_trait_long(t).trait_id)->Ok_0;
    crate::definition::law_implicit_impls_are_the_unnamed(
        impls,
        d.by_name,
        (name, trait_impl_id),
    );
    if d.implicit_impls.contains((name, trait_impl_id)) {
        let i = choose|i: int|
            0 <= i < d.implicit_impls.len() && d.implicit_impls[i] == (name, trait_impl_id);
        assert(d.implicit_impls[i].0 == name);
    }
    if has_key(d.implicit_impls, name) {
        let i = crate::collections::key_index(d.implicit_impls, name);
        let e = d.implicit_impls[i];
        assert(d.implicit_impls.contains(e));
        crate::definition::law_implicit_impls_are_the_unnamed(impls, d.by_name, e);
    }
}

/// Whether a `use` item is recorded for one of some records of name resolution.
pub open spec fn is_used_by(db: SemanticGroup, records: Seq<ResolverData>, u: UseId) -> bool {
    exists|i: int|
        0 <= i < records.len() && (lookup(
            db.facts.used_uses@,
            (#[trigger] records[i]).id,
        ) matches Some(uses) && uses@.contains(u))
}

/// Whether a `use` item is recorded for one of some impl items.
pub open spec fn is_used_by_items(
    db: SemanticGroup,
    items: Seq<(SmolStrId, ImplItemInfo)>,
    u: UseId,
) -> bool {
    exists|i: int|
        0 <= i < items.len() && (lookup(
            db.facts.item_resolver_data@,
            (#[trigger] items[i]).1.id,
        ) matches Some(records) && is_used_by(db, records@, u))
}

proof fn lemma_records_uses(db: SemanticGroup, records: Seq<ResolverData>, u: UseId)
    ensures
        db.spec_records_uses(records).contains(u) <==> is_used_by(db, records, u),
    decreases records.len(),
{
    if records.len() > 0 {
        let init = records.drop_last();
        lemma_records_uses(db, init, u);
        lemma_concat_members(
            db.spec_records_uses(init),
            db.spec_used_uses(records.last().id),
            u,
        );
        assert(records[records.len() - 1] == records.last());
        if is_used_by(db, init, u) {
            let i = choose|i: int|
                0 <= i < init.len() && (lookup(
                    db.facts.used_uses@,
                    (#[trigger] init[i]).id,
                ) matches Some(uses) && uses@.contains(u));
            assert(records[i] == init[i]);
        }
        if is_used_by(db, records, u) {
            let i = choose|i: int|
                0 <= i < records.len() && (lookup(
                    db.facts.used_uses@,
                    (#[trigger] records[i]).id,
                ) matches Some(uses) && uses@.contains(u));
            if i < init.len() {
                assert(init[i] == records[i]);
            }
        }
    }
}

proof fn lemma_items_uses(db: SemanticGroup, items: Seq<(SmolStrId, ImplItemInfo)>, u: UseId)
    ensures
        db.spec_items_uses(items).contains(u) <==> is_used_by_items(db, items, u),
    decreases items.len(),
{
    if items.len() > 0 {
        let init = items.drop_last();
        let last = items.last().1.id;
        lemma_items_uses(db, init, u);
        lemma_concat_members(db.spec_items_uses(init), db.spec_item_uses(last), u);
        if let Some(records) = lookup(db.facts.item_resolver_data@, last) {
            lemma_records_uses(db, records@, u);
        }
        assert(items[items.len() - 1] == items.last());
        if is_used_by_items(db, init, u) {
            let i = choose|i: int|
                0 <= i < init.len() && (lookup(
                    db.facts.item_resolver_data@,
                    (#[trigger] init[i]).1.id,
                ) matches Some(records) && is_used_by(db, records@, u));
            assert(items[i] == init[i]);
        }
        if is_used_by_items(db, items, u) {
            let i = choose|i: int|
                0 <= i < items.len() && (lookup(
                    db.facts.item_resolver_data@,
                    (#[trigger] items[i]).1.id,
                ) matches Some(records) && is_used_by(db, records@, u));
            if i < init.len() {
                assert(init[i] == items[i]);
            }
        }
    }
}

/// An impl uses a `use` item exactly if that is recorded for its declaration, or for one of the
/// items that it has by a name; it is listed once.
pub proof fn law_impls_use_what_their_parts_use(
    db: SemanticGroup,
    declared: ResolverId,
    items: Seq<(SmolStrId, ImplItemInfo)>,
    u: UseId,
)
    ensures
        ({
            let uses = set_extend(
                Seq::empty(),
                db.spec_used_uses(declared) + db.spec_items_uses(items),
            );
            &&& uses.no_duplicates()
            &&& uses.contains(u) <==> (lookup(
                db.facts.used_uses@,
                declared,
            ) matches Some(list) && list@.contains(u)) || is_used_by_items(db, items, u)
        }),
{
    law_set_extend(
        Seq::<UseId>::empty(),
        db.spec_used_uses(declared) + db.spec_items_uses(items),
    );
    lemma_concat_members(db.spec_used_uses(declared), db.spec_items_uses(items), u);
    lemma_items_uses(db, items, u);
}

/// The functions of an impl by their names: a name is there exactly if a function has it, and stands
/// for the last that has it.
pub proof fn law_functions_are_listed_by_name<V>(
    functions: Seq<(ImplFunctionId, V)>,
    name: SmolStrId,
)
    ensures
        ({
            let listed = assoc_extend(Seq::empty(), named_functions(functions));
            &&& has_key(listed, name) <==> exists|i: int|
                0 <= i < functions.len() && (#[trigger] functions[i]).0.name == name
            &&& forall|i: int|
                0 <= i < functions.len() && (#[trigger] functions[i]).0.name == name && (forall|
                    j: int,
                |
                    i < j < functions.len() ==> (#[trigger] functions[j]).0.name != name) ==> lookup(
                    listed,
                    name,
                ) == Some(functions[i].0)
        }),
{
    let named = named_functions(functions);
    law_last_entries_stay(named, name);
    if has_key(named, name) {
        let i = choose|i: int| 0 <= i < named.len() && (#[trigger] named[i]).0 == name;
        assert(functions[i].0.name == name);
    }
    assert forall|i: int|
        0 <= i < functions.len() && (#[trigger] functions[i]).0.name == name implies has_key(
        named,
        name,
    ) by {
        assert(named[i].0 == name);
    }
    assert forall|i: int|
        0 <= i < functions.len() && (#[trigger] functions[i]).0.name == name && (forall|j: int|
            i < j < functions.len() ==> (#[trigger] functions[j]).0.name != name) implies lookup(
        assoc_extend(Seq::empty(), named),
        name,
    ) == Some(functions[i].0) by {
        assert(named[i].0 == name);
        assert forall|j: int| i < j < named.len() implies (#[trigger] named[j]).0 != name by {
            assert(functions[j].0.name != name);
        }
    }
}

/// The function that is found for a name is the first that has it.
pub proof fn law_first_functions_are_found<V>(
    functions: Seq<(ImplFunctionId, V)>,
    name: SmolStrId,
    i: int,
)
    requires
        0 <= i < functions.len(),
        functions[i].0.name == name,
        forall|j: int| 0 <= j < i ==> (#[trigger] functions[j]).0.name != name,
    ensures
        function_named(functions, name, 0) == Some(functions[i].0),
{
    lemma_first_function(functions, name, i, 0);
}

proof fn lemma_first_function<V>(
    functions: Seq<(ImplFunctionId, V)>,
    name: SmolStrId,
    i: int,
    from: int,
)
    requires
        0 <= from <= i < functions.len(),
        functions[i].0.name == name,
        forall|j: int| 0 <= j < i ==> (#[trigger] functions[j]).0.name != name,
    ensures
        function_named(functions, name, from) == Some(functions[i].0),
    decreases i - from,
{
    if from < i {
        assert(functions[from].0.name != name);
        lemma_first_function(functions, name, i, from + 1);
    }
}

/// The item that implements an item of the trait is the one that its body has last under the name,
/// where that is of the same kind, and there is none where the body has no item of the name.
pub proof fn law_items_are_found_by_kind_and_name(
    db: SemanticGroup,
    impl_def_id: ImplDefId,
    ast: ItemImpl,
    type_id: TraitTypeId,
    constant_id: TraitConstantId,
    trait_impl_id: TraitImplId,
    i: int,
)
    requires
        is_written(db, impl_def_id, ast),
        db.spec_definition(impl_def_id) is Ok,
        db.spec_impl_def_trait(impl_def_id) is Ok,
        is_last_of_name(written_items(ast), i),
    ensures
        match written_items(ast)[i] {
            ImplItem::Type(t, _) => {
                let id = ImplTypeDefId { impl_def_id, name: t.name, stable_ptr: t.stable_ptr };
                type_id.name == t.name ==> db.spec_impl_type_by_trait_type(impl_def_id, type_id)
                    == Ok::<_, DiagnosticAdded>(id)
            },
            ImplItem::Constant(t, _) => {
                let id = ImplConstantDefId { impl_def_id, name: t.name, stable_ptr: t.stable_ptr };
                constant_id.name == t.name ==> db.spec_impl_constant_by_trait_constant(
                    impl_def_id,
                    constant_id,
                ) == Ok::<_, DiagnosticAdded>(id)
            },
            ImplItem::Impl(t, _) => {
                let id = ImplImplDefId { impl_def_id, name: t.name, stable_ptr: t.stable_ptr };
                trait_impl_id.name == t.name ==> db.spec_impl_impl_by_trait_impl(
                    impl_def_id,
                    trait_impl_id,
                ) == Ok::<_, DiagnosticAdded>(id)
            },
            _ => true,
        },
        !names_item(written_items(ast), type_id.name) ==> db.spec_impl_type_by_trait_type(
            impl_def_id,
            type_id,
        ) is Err,
        !names_item(written_items(ast), constant_id.name)
            ==> db.spec_impl_constant_by_trait_constant(impl_def_id, constant_id) is Err,
        !names_item(written_items(ast), trait_impl_id.name) ==> db.spec_impl_impl_by_trait_impl(
            impl_def_id,
            trait_impl_id,
        ) is Err,
{
    let d = db.spec_definition(impl_def_id)->Ok_0;
    law_definitions_list_what_is_written(db, impl_def_id, ast, d);
    assert(has_key(d.by_name, type_id.name) <==> names_item(written_items(ast), type_id.name));
    assert(has_key(d.by_name, constant_id.name) <==> names_item(
        written_items(ast),
        constant_id.name,
    ));
    assert(has_key(d.by_name, trait_impl_id.name) <==> names_item(
        written_items(ast),
        trait_impl_id.name,
    ));
}

} // verus!
