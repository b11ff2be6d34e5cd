//! The decisions of the inspector that lists the components of an entity, or
//! of one instance of it: which components are listed, in which order, and
//! what each row shows.

use vstd::prelude::*;

use crate::name_set::{sort_strings, sorted_names};

verus! {

/// An index into the data of an entity.
#[derive(Debug, Clone, PartialEq, Eq)]
pub enum Index {
    /// The instance with this key.
    ArrowInstance(u64),
    /// An index of any other kind.
    Other,
}

/// An entity, or one instance of it.
#[derive(Debug, Clone, PartialEq, Eq)]
pub struct InstanceId {
    /// The path of the entity.
    pub entity_path: String,
    /// The instance, where one is chosen.
    pub instance_index: Option<Index>,
}

impl InstanceId {
    /// The whole entity at `entity_path`, with no instance chosen; this is what
    /// the inspector of an entity path shows.
    pub fn for_entity(entity_path: &String) -> (r: InstanceId)
        ensures
            r.entity_path == *entity_path,
            r.instance_index is None,
    {
        InstanceId { entity_path: entity_path.clone(), instance_index: None }
    }
}

/// What the inspector of an instance lists: nothing, where the store knows no
/// components of the entity, or the entity's components in the order of their
/// names.
#[derive(Debug, Clone, PartialEq, Eq)]
pub enum ComponentList {
    NoComponents,
    Components(Vec<String>),
}

/// The components the inspector lists, given those the store knows of the
/// entity, if it knows any: the same names, sorted.
pub fn component_list(known: Option<Vec<String>>) -> (r: ComponentList)
    ensures
        known is None <==> r is NoComponents,
        known is Some ==> (r matches ComponentList::Components(v) && v@.to_multiset()
            == known.unwrap()@.to_multiset() && sorted_names(v@)),
{
    match known {
        None => ComponentList::NoComponents,
        Some(v) => {
            let mut v = v;
            sort_strings(&mut v);
            ComponentList::Components(v)
        },
    }
}

/// What a query for the data of one component of the entity gave.
#[derive(Debug, Clone, PartialEq, Eq)]
pub enum ComponentLookup {
    /// The component has data.
    Found,
    /// The component is not set at this point in time.
    PrimaryNotFound,
    /// The query failed, with this message.
    Failed(String),
}

/// What the row of one component shows.
#[derive(Debug, Clone, PartialEq, Eq)]
pub enum ComponentRow {
    /// This text.
    Label(String),
    /// The number of values of the component.
    AllInstances,
    /// The value of this instance.
    OneInstance(u64),
}

/// The text a row shows for a failed query with message `msg`.
pub open spec fn error_label(msg: Seq<char>) -> Seq<char> {
    "Error: "@ + msg
}

/// The row the inspector shows for one component, or nothing where the
/// component is not set: the failure message where the query failed; the
/// number of values where no instance is chosen; the instance's value where an
/// instance key is chosen; and a bad-index label where an index of another
/// kind is.
pub fn component_row(lookup: &ComponentLookup, index: &Option<Index>) -> (r: Option<ComponentRow>)
    ensures
        *lookup == ComponentLookup::PrimaryNotFound ==> r is None,
        lookup matches ComponentLookup::Failed(msg) ==> (r matches Some(ComponentRow::Label(l)) && l@
            == error_label(msg@)),
        *lookup == ComponentLookup::Found ==> match index {
            None => r == Some(ComponentRow::AllInstances),
            Some(Index::ArrowInstance(k)) => r == Some(ComponentRow::OneInstance(*k)),
            Some(Index::Other) => (r matches Some(ComponentRow::Label(l)) && l@ == "<bad index>"@),
        },
{
    match lookup {
        ComponentLookup::PrimaryNotFound => None,
        ComponentLookup::Failed(msg) => {
            let mut label = "Error: ".to_owned();
            label.append(msg.as_str());
            Some(ComponentRow::Label(label))
        },
        ComponentLookup::Found => match index {
            None => Some(ComponentRow::AllInstances),
            Some(Index::ArrowInstance(k)) => Some(ComponentRow::OneInstance(*k)),
            Some(Index::Other) => Some(ComponentRow::Label("<bad index>".to_owned())),
        },
    }
}

} // verus!
