//! A catalog of PC rigs and the components they are built from.
//!
//! The library holds the relational model (components, rigs and the
//! association between them), the operations of its data access layer, the
//! decisions of the HTTP layer and the client-side rules for assembling a rig.
pub mod slot;
pub mod id;
pub mod model;
pub mod group;
pub mod store;
pub mod api;
pub mod client;
pub mod server;
