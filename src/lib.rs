//! An in-memory store of civic issue reports, the request handling that sits
//! over it, and the state of the client's issue list.

pub mod issue;
pub mod ident;
pub mod store;
pub mod api;
pub mod laws;
pub mod view;
