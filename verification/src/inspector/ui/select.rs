//! What the inspector panel shows, and the lists of resources and of asset
//! types from which the user picks it.

use crate::text::{
    decimal, decimal_string, is_name_order, name_before, names_of, order_by_name,
};
use bevy::asset::{HandleId, ReflectAsset};
use bevy::prelude::ReflectResource;
use bevy_reflect::TypeRegistry;
use std::any::TypeId;
use vstd::multiset::Multiset;
use vstd::prelude::*;
use vstd::string::StringExecFns;

verus! {

/// The identity of a Rust type. Two of them are the same value exactly when
/// they stand for the same type.
#[verifier::external_type_specification]
#[verifier::external_body]
pub struct ExTypeId(core::any::TypeId);

/// The identity of an asset in the engine's stores.
#[verifier::external_type_specification]
#[verifier::external_body]
pub struct ExHandleId(bevy::asset::HandleId);

/// The engine's table of the types it can reflect.
#[verifier::external_type_specification]
#[verifier::external_body]
pub struct ExTypeRegistry(bevy_reflect::TypeRegistry);

/// `==` of `TypeId`. std gives every type one identity, so the comparison
/// holds exactly of equal values.
#[verifier::external_body]
fn same_type(a: &TypeId, b: &TypeId) -> (same: bool)
    ensures
        same == (*a == *b),
{
    a == b
}

/// `HandleId`'s `==`, which the engine derives over all that an identity
/// holds: it holds exactly of equal values.
#[verifier::external_body]
fn same_handle(a: &HandleId, b: &HandleId) -> (same: bool)
    ensures
        same == (*a == *b),
{
    a == b
}

/// What the inspector panel shows.
#[derive(Debug, PartialEq, Eq)]
pub enum InspectorSelection {
    /// The selected entities.
    Entities,
    /// A resource, by its type and the type's name.
    Resource(TypeId, String),
    /// An asset, by its type, the type's name and its identity.
    Asset(TypeId, String, HandleId),
}

impl Clone for InspectorSelection {
    fn clone(&self) -> (copy: Self)
        ensures
            copy == *self,
    {
        match self {
            InspectorSelection::Entities => InspectorSelection::Entities,
            InspectorSelection::Resource(type_id, name) => InspectorSelection::Resource(
                *type_id,
                name.clone(),
            ),
            InspectorSelection::Asset(type_id, name, handle) => InspectorSelection::Asset(
                *type_id,
                name.clone(),
                *handle,
            ),
        }
    }
}

impl Default for InspectorSelection {
    /// A new inspector shows the selected entities.
    fn default() -> (selection: InspectorSelection)
        ensures
            selection == InspectorSelection::Entities,
    {
        InspectorSelection::Entities
    }
}

impl InspectorSelection {
    /// Whether the resource of this type is the one shown.
    pub open spec fn is_resource(&self, type_id: TypeId) -> bool {
        match self {
            InspectorSelection::Resource(shown, _) => *shown == type_id,
            _ => false,
        }
    }

    /// Whether this asset is the one shown.
    pub open spec fn is_asset(&self, handle: HandleId) -> bool {
        match self {
            InspectorSelection::Asset(_, _, shown) => *shown == handle,
            _ => false,
        }
    }

    /// Whether the row of this resource is drawn as selected.
    pub fn shows_resource(&self, type_id: &TypeId) -> (selected: bool)
        ensures
            selected == self.is_resource(*type_id),
    {
        match self {
            InspectorSelection::Resource(shown, _) => same_type(shown, type_id),
            _ => false,
        }
    }

    /// Whether the row of this asset is drawn as selected.
    pub fn shows_asset(&self, handle: &HandleId) -> (selected: bool)
        ensures
            selected == self.is_asset(*handle),
    {
        match self {
            InspectorSelection::Asset(_, _, shown) => same_handle(shown, handle),
            _ => false,
        }
    }
}

/// A registered type as the lists need it.
#[derive(Debug)]
pub struct RegisteredType {
    pub name: String,
    pub type_id: TypeId,
    pub resource: bool,
    pub asset: bool,
}

impl Clone for RegisteredType {
    fn clone(&self) -> (copy: Self)
        ensures
            copy == *self,
    {
        RegisteredType {
            name: self.name.clone(),
            type_id: self.type_id,
            resource: self.resource,
            asset: self.asset,
        }
    }
}

/// What a registered type is to the lists, with its name as text.
pub struct RegisteredTypeView {
    pub name: Seq<char>,
    pub type_id: TypeId,
    pub resource: bool,
    pub asset: bool,
}

impl View for RegisteredType {
    type V = RegisteredTypeView;

    open spec fn view(&self) -> RegisteredTypeView {
        RegisteredTypeView {
            name: self.name@,
            type_id: self.type_id,
            resource: self.resource,
            asset: self.asset,
        }
    }
}

/// What registered types are to the lists.
pub open spec fn views_of(types: Seq<RegisteredType>) -> Seq<RegisteredTypeView> {
    types.map_values(|entry: RegisteredType| entry@)
}

/// What the table of types holds: for each registered type its short name,
/// its identity, and whether it was registered as a resource and as an
/// asset. The table keeps its entries in no order.
pub uninterp spec fn registered(registry: TypeRegistry) -> Multiset<RegisteredTypeView>;

/// `TypeRegistry::iter`, each entry handed out as a `RegisteredType` made of
/// its `short_name`, its `type_id`, and whether its `data` holds a
/// `ReflectResource` and a `ReflectAsset`. Every entry of the table comes
/// once, in the order in which the table's hash map walks them, of which
/// nothing is promised.
#[verifier::external_body]
fn read_registry(registry: &TypeRegistry) -> (types: Vec<RegisteredType>)
    ensures
        views_of(types@).to_multiset() == registered(*registry),
{
    registry
        .iter()
        .map(|entry| RegisteredType {
            name: entry.short_name().to_owned(),
            type_id: entry.type_id(),
            resource: entry.data::<ReflectResource>().is_some(),
            asset: entry.data::<ReflectAsset>().is_some(),
        })
        .collect()
}

/// Whether `types` is the table walked in some order.
pub open spec fn is_walk(registry: TypeRegistry, types: Seq<RegisteredType>) -> bool {
    views_of(types).to_multiset() == registered(registry)
}

/// The list in which a type is shown.
#[derive(Clone, Copy, Debug, PartialEq, Eq, Structural)]
pub enum TypeList {
    Resources,
    Assets,
}

/// Whether a type belongs to a list.
pub open spec fn belongs(entry: RegisteredType, list: TypeList) -> bool {
    match list {
        TypeList::Resources => entry.resource,
        TypeList::Assets => entry.asset,
    }
}

/// The types of a list, in the order of the table.
pub open spec fn members(types: Seq<RegisteredType>, list: TypeList) -> Seq<RegisteredType> {
    types.filter(|entry: RegisteredType| belongs(entry, list))
}

/// The names of types.
pub open spec fn type_names(types: Seq<RegisteredType>) -> Seq<Seq<char>> {
    types.map_values(|entry: RegisteredType| entry.name@)
}

/// Whether `rows` are `types` sorted by name, types of one name in the
/// order in which they stood.
pub open spec fn is_listing(types: Seq<RegisteredType>, rows: Seq<RegisteredType>) -> bool {
    exists|order: Seq<usize>|
        {
            &&& is_name_order(type_names(types), order)
            &&& rows.len() == types.len()
            &&& forall|k: int| 0 <= k < rows.len() ==> rows[k] == types[order[k] as int]
        }
}

/// Whether no row stands before one of a lower name.
pub open spec fn names_rising(rows: Seq<RegisteredType>) -> bool {
    forall|a: int, b: int| 0 <= a < b < rows.len() ==> !name_before(rows[b].name@, rows[a].name@)
}

/// The rows of a listing rise by name.
pub proof fn lemma_listing_rises(types: Seq<RegisteredType>, rows: Seq<RegisteredType>)
    requires
        is_listing(types, rows),
    ensures
        names_rising(rows),
{
    let order = choose|order: Seq<usize>|
        {
            &&& is_name_order(type_names(types), order)
            &&& rows.len() == types.len()
            &&& forall|k: int| 0 <= k < rows.len() ==> rows[k] == types[order[k] as int]
        };
    let names = type_names(types);
    assert forall|a: int, b: int| 0 <= a < b < rows.len() implies !name_before(
        rows[b].name@,
        rows[a].name@,
    ) by {
        assert(crate::text::listed_before(names, order[a] as int, order[b] as int));
        crate::text::lemma_listed_before_asymmetric(names, order[a] as int, order[b] as int);
        crate::text::lemma_name_before_irreflexive(names[order[a] as int]);
    }
}

/// A list has one listing only.
pub proof fn lemma_listing_unique(
    types: Seq<RegisteredType>,
    first: Seq<RegisteredType>,
    second: Seq<RegisteredType>,
)
    requires
        is_listing(types, first),
        is_listing(types, second),
    ensures
        first == second,
{
    let names = type_names(types);
    let a = choose|order: Seq<usize>|
        {
            &&& is_name_order(names, order)
            &&& first.len() == types.len()
            &&& forall|k: int| 0 <= k < first.len() ==> first[k] == types[order[k] as int]
        };
    let b = choose|order: Seq<usize>|
        {
            &&& is_name_order(names, order)
            &&& second.len() == types.len()
            &&& forall|k: int| 0 <= k < second.len() ==> second[k] == types[order[k] as int]
        };
    crate::text::lemma_name_order_unique(names, a, b);
    assert(first =~= second);
}

/// The types of one list, sorted by name.
pub fn list_types(types: &Vec<RegisteredType>, list: TypeList) -> (rows: Vec<RegisteredType>)
    ensures
        is_listing(members(types@, list), rows@),
{
    let ghost wanted = |entry: RegisteredType| belongs(entry, list);
    let mut kept: Vec<RegisteredType> = Vec::new();
    let mut names: Vec<String> = Vec::new();
    let mut i: usize = 0;
    assert(types@.take(0) =~= Seq::<RegisteredType>::empty());
    while i < types.len()
        invariant
            i <= types.len(),
            wanted == (|entry: RegisteredType| belongs(entry, list)),
            kept@ == types@.take(i as int).filter(wanted),
            names.len() == kept.len(),
            forall|k: int| 0 <= k < names.len() ==> (#[trigger] names[k]) == kept[k].name,
        decreases types.len() - i,
    {
        let wanted_here: bool = match list {
            TypeList::Resources => types[i].resource,
            TypeList::Assets => types[i].asset,
        };
        proof {
            let seen = types@.take(i as int);
            assert(types@.take(i + 1) =~= seen.push(types[i as int]));
            Seq::filter_distributes_over_add(seen, seq![types[i as int]], wanted);
            assert(seen.push(types[i as int]) =~= seen + seq![types[i as int]]);
            reveal_with_fuel(Seq::filter, 2);
            assert(seq![types[i as int]].filter(wanted) =~= if wanted(types[i as int]) {
                seq![types[i as int]]
            } else {
                Seq::empty()
            });
        }
        if wanted_here {
            kept.push(types[i].clone());
            names.push(types[i].name.clone());
        }
        i = i + 1;
    }
    assert(types@.take(types.len() as int) =~= types@);
    assert(names_of(names@) =~= type_names(kept@));
    let order: Vec<usize> = order_by_name(&names);
    let mut rows: Vec<RegisteredType> = Vec::new();
    let mut k: usize = 0;
    while k < order.len()
        invariant
            k <= order.len(),
            is_name_order(type_names(kept@), order@),
            rows.len() == k,
            forall|j: int| 0 <= j < k ==> rows[j] == kept[order[j] as int],
        decreases order.len() - k,
    {
        rows.push(kept[order[k]].clone());
        k = k + 1;
    }
    rows
}

/// Whether `rows` are what a panel lists of the table: the members of the
/// list among the table's types, sorted by name, types of one name in the
/// order in which the table was walked.
pub open spec fn is_panel(registry: TypeRegistry, list: TypeList, rows: Seq<RegisteredType>) -> bool {
    exists|types: Seq<RegisteredType>|
        #![trigger is_walk(registry, types)]
        is_walk(registry, types) && is_listing(members(types, list), rows)
}

/// Reads the table of types: every registered type once, in the order in
/// which the table is walked.
pub fn registered_types(registry: &TypeRegistry) -> (types: Vec<RegisteredType>)
    ensures
        is_walk(*registry, types@),
{
    read_registry(registry)
}

/// The rows of the resources panel: the registered resources, sorted by
/// name.
pub fn select_resource(type_registry: &TypeRegistry) -> (rows: Vec<RegisteredType>)
    ensures
        is_panel(*type_registry, TypeList::Resources, rows@),
        names_rising(rows@),
        forall|k: int| 0 <= k < rows.len() ==> (#[trigger] rows[k]).resource,
{
    let types = registered_types(type_registry);
    let rows = list_types(&types, TypeList::Resources);
    proof {
        assert(is_walk(*type_registry, types@));
        lemma_listing_rises(members(types@, TypeList::Resources), rows@);
        lemma_members_belong(types@, TypeList::Resources);
    }
    rows
}

/// The groups of the assets panel: the registered asset types, sorted by
/// name.
pub fn select_asset(type_registry: &TypeRegistry) -> (rows: Vec<RegisteredType>)
    ensures
        is_panel(*type_registry, TypeList::Assets, rows@),
        names_rising(rows@),
        forall|k: int| 0 <= k < rows.len() ==> (#[trigger] rows[k]).asset,
{
    let types = registered_types(type_registry);
    let rows = list_types(&types, TypeList::Assets);
    proof {
        assert(is_walk(*type_registry, types@));
        lemma_listing_rises(members(types@, TypeList::Assets), rows@);
        lemma_members_belong(types@, TypeList::Assets);
    }
    rows
}

/// Every member of a list belongs to it.
pub proof fn lemma_members_belong(types: Seq<RegisteredType>, list: TypeList)
    ensures
        forall|k: int|
            0 <= k < members(types, list).len() ==> belongs(#[trigger] members(types, list)[k], list),
{
    broadcast use vstd::seq_lib::group_filter_ensures;

    let found = members(types, list);
    assert forall|k: int| 0 <= k < found.len() implies belongs(#[trigger] found[k], list) by {
        assert(found.contains(found[k]));
    }
}

/// The heading of a group of assets: the type's name, and in brackets the
/// number of its assets.
pub open spec fn group_heading(name: Seq<char>, count: nat) -> Seq<char> {
    name + seq![' ', '('] + decimal(count) + seq![')']
}

/// The heading of a group of the assets panel.
pub fn asset_heading(name: &str, count: usize) -> (heading: String)
    ensures
        heading@ == group_heading(name@, count as nat),
{
    proof {
        reveal_strlit(" (");
        reveal_strlit(")");
    }
    let mut heading = String::from_str(name);
    heading.append(" (");
    let number = decimal_string(count as u64);
    heading.append(number.as_str());
    heading.append(")");
    assert(" ("@ =~= seq![' ', '(']);
    assert(")"@ =~= seq![')']);
    heading
}

} // verus!
