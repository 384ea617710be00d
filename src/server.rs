//! The backend as a whole: its state and how it answers each request.
use vstd::prelude::*;

use crate::api;
use crate::api::component::GetError;
use crate::group::is_grouping;
use crate::id::uuid_of_text;
use crate::model::{links_of, Component, CreateComponentData, CreateRigData, Rig, RigWithComponents};
use crate::store::{
    component_by_id, has_component, has_rig, joined, request_error, select_by_ids, Catalog,
};

verus! {

/// A request the backend answers, with its path and body already read.
pub enum Request {
    /// `GET /components/<id>`, with the id as written in the path.
    GetComponent(String),
    /// `GET /components/`.
    ListComponents,
    /// `POST /components/`.
    CreateComponent(CreateComponentData),
    /// `GET /rigs/`.
    ListRigs,
    /// `POST /rigs/`.
    CreateRig(CreateRigData),
}

/// The answer to a request: a body with status 200, or an error status
/// with a text body.
pub enum Response {
    Component(Component),
    Components(Vec<Component>),
    Rig(RigWithComponents),
    Rigs(Vec<RigWithComponents>),
    Error(u16, String),
}

/// The status of a failed write.
pub const STORE_FAILURE: u16 = 500;

/// The backend: the catalog it serves.
pub struct Server {
    pub catalog: Catalog,
}

/// The backend, ready to serve, over an empty catalog.
pub fn rocket() -> (r: Server)
    ensures
        r.catalog.wf(),
        r.catalog.components_spec() == Seq::<Component>::empty(),
        r.catalog.rigs_spec() == Seq::<Rig>::empty(),
        r.catalog.links_spec() == Seq::<crate::model::RigComponent>::empty(),
{
    Server { catalog: Catalog::new() }
}

impl Server {
    /// Answers `req`, reading and writing the catalog as the request asks.
    pub fn handle(&mut self, req: Request) -> (r: Response)
        requires
            old(self).catalog.wf(),
        ensures
            final(self).catalog.wf(),
            final(self).catalog.components_spec() == old(self).catalog.components_spec() || req is CreateComponent,
            final(self).catalog.rigs_spec() == old(self).catalog.rigs_spec() || req is CreateRig,
            final(self).catalog.links_spec() == old(self).catalog.links_spec() || req is CreateRig,
            req matches Request::GetComponent(id) ==> {
                let cs = old(self).catalog.components_spec();
                &&& *final(self) == *old(self)
                &&& uuid_of_text(id@) is None ==> (r matches Response::Error(s, _) && s == 400)
                &&& uuid_of_text(id@) matches Some(v) ==> (has_component(cs, v) ==> r
                    == Response::Component(component_by_id(cs, v)))
                &&& uuid_of_text(id@) matches Some(v) ==> (!has_component(cs, v) ==> (r matches Response::Error(
                    s,
                    _,
                ) && s == 404))
            },
            req is ListComponents ==> (r matches Response::Components(v) && v@
                == old(self).catalog.components_spec()),
            req matches Request::CreateComponent(d) ==> match r {
                Response::Component(c) => {
                    &&& c.manufacturer == d.manufacturer
                    &&& c.model == d.model
                    &&& c.slot == d.slot
                    &&& c.price == d.price
                    &&& !has_component(old(self).catalog.components_spec(), c.id)
                    &&& final(self).catalog.components_spec() == old(
                        self,
                    ).catalog.components_spec().push(c)
                },
                Response::Error(s, _) => s == STORE_FAILURE && *final(self) == *old(self)
                    && old(self).catalog.components_spec().len() > 0,
                _ => false,
            },
            req is ListRigs ==> (r matches Response::Rigs(v) && is_grouping(
                v@,
                old(self).catalog.rigs_spec(),
                joined(old(self).catalog.links_spec(), old(self).catalog.components_spec()),
            )),
            req matches Request::CreateRig(d) ==> match r {
                Response::Rig(v) => {
                    &&& v.name == d.name
                    &&& !has_rig(old(self).catalog.rigs_spec(), v.id)
                    &&& final(self).catalog.rigs_spec() == old(self).catalog.rigs_spec().push(
                        Rig { id: v.id, name: d.name },
                    )
                    &&& final(self).catalog.links_spec() == old(self).catalog.links_spec()
                        + links_of(v.id, d.components@)
                    &&& v.components@ == select_by_ids(
                        old(self).catalog.components_spec(),
                        d.components@,
                    )
                    &&& request_error(old(self).catalog.components_spec(), d.components@) is None
                },
                Response::Error(s, _) => {
                    &&& s == STORE_FAILURE
                    &&& final(self).catalog.links_spec() == old(self).catalog.links_spec()
                    &&& (old(self).catalog.rigs_spec().len() > 0 && *final(self) == *old(self))
                        || request_error(old(self).catalog.components_spec(), d.components@) is Some
                },
                _ => false,
            },
    {
        match req {
            Request::GetComponent(id) => match api::component::detail(id.as_str(), &self.catalog) {
                Ok(c) => Response::Component(c),
                Err(e) => {
                    let status = e.status();
                    match e {
                        GetError::InvalidId(msg) => Response::Error(status, msg),
                        GetError::NotFound => Response::Error(status, String::new()),
                    }
                },
            },
            Request::ListComponents => Response::Components(api::component::list(&self.catalog)),
            Request::CreateComponent(d) => match api::component::create(d, &mut self.catalog) {
                Ok(c) => Response::Component(c),
                Err(e) => Response::Error(STORE_FAILURE, e.describe()),
            },
            Request::ListRigs => Response::Rigs(api::rig::list(&self.catalog)),
            Request::CreateRig(d) => match api::rig::create(d, &mut self.catalog) {
                Ok(v) => Response::Rig(v),
                Err(e) => Response::Error(STORE_FAILURE, e.describe()),
            },
        }
    }
}

} // verus!
