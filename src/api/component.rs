use vstd::prelude::*;

use crate::id::{parse_uuid, uuid_of_text};
use crate::model::{Component, CreateComponentData};
use crate::store::{component_by_id, has_component, Catalog, StoreError};

verus! {

/// Why a component could not be returned by id.
#[derive(Debug)]
pub enum GetError {
    /// The id is not the text of a UUID; the text says why. Answered with 400.
    InvalidId(String),
    /// No component has the id. Answered with 404.
    NotFound,
}

impl GetError {
    /// The HTTP status that answers this error.
    pub fn status(&self) -> (r: u16)
        ensures
            self is InvalidId ==> r == 400,
            self is NotFound ==> r == 404,
    {
        match self {
            GetError::InvalidId(_) => 400,
            GetError::NotFound => 404,
        }
    }
}

/// The component named by an id that was already read from the path:
/// `InvalidId` where reading failed, `NotFound` where no component has it.
pub fn lookup(parsed: Result<u128, String>, catalog: &Catalog) -> (r: Result<Component, GetError>)
    requires
        catalog.wf(),
    ensures
        parsed is Err ==> r is Err && r->Err_0 is InvalidId,
        parsed matches Ok(id) ==> (has_component(catalog.components_spec(), id) <==> r is Ok),
        parsed matches Ok(id) ==> (r matches Ok(c) ==> c == component_by_id(
            catalog.components_spec(),
            id,
        ) && c.id == id),
        parsed is Ok ==> (r is Err ==> r->Err_0 is NotFound),
{
    match parsed {
        Err(msg) => Err(GetError::InvalidId(msg)),
        Ok(id) => match catalog.get_component(id) {
            Ok(c) => Ok(c),
            Err(_) => Err(GetError::NotFound),
        },
    }
}

/// The component whose id is spelled by `id`: `InvalidId` where the text is
/// no UUID, `NotFound` where it is one that no component has.
pub fn detail(id: &str, catalog: &Catalog) -> (r: Result<Component, GetError>)
    requires
        catalog.wf(),
    ensures
        uuid_of_text(id@) is None ==> r is Err && r->Err_0 is InvalidId,
        uuid_of_text(id@) matches Some(v) ==> (has_component(catalog.components_spec(), v) <==> r is Ok),
        uuid_of_text(id@) matches Some(v) ==> (r matches Ok(c) ==> c == component_by_id(
            catalog.components_spec(),
            v,
        ) && c.id == v),
        uuid_of_text(id@) is Some ==> (r is Err ==> r->Err_0 is NotFound),
{
    lookup(parse_uuid(id), catalog)
}

/// Every stored component.
pub fn list(catalog: &Catalog) -> (r: Vec<Component>)
    ensures
        r@ == catalog.components_spec(),
{
    catalog.list_components()
}

/// Stores a component made of `data` under a newly generated id and returns
/// it; that id is one that no stored component had.
pub fn create(data: CreateComponentData, catalog: &mut Catalog) -> (r: Result<Component, StoreError>)
    requires
        old(catalog).wf(),
    ensures
        final(catalog).wf(),
        r matches Ok(c) ==> {
            &&& c.manufacturer == data.manufacturer
            &&& c.model == data.model
            &&& c.slot == data.slot
            &&& c.price == data.price
            &&& !has_component(old(catalog).components_spec(), c.id)
            &&& final(catalog).components_spec() == old(catalog).components_spec().push(c)
        },
        r matches Err(e) ==> e == StoreError::UniqueViolation && *final(catalog) == *old(catalog),
        r is Err ==> old(catalog).components_spec().len() > 0,
        final(catalog).rigs_spec() == old(catalog).rigs_spec(),
        final(catalog).links_spec() == old(catalog).links_spec(),
{
    catalog.create_component(data.into_component())
}

} // verus!
