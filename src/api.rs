//! The decisions behind the HTTP routes: what each request reads and writes,
//! and which status answers it.
pub mod component;
pub mod rig;
