//! Session-based authentication and owner-scoped access to personal
//! productivity records (notes, to-dos, subjects, assessments, documents).
//!
//! Every operation on a record first resolves the caller's credential to a
//! live session and its user, refreshes the session's liveness metadata, and
//! compares the record's owner with that user before anything is read or
//! changed.

pub mod account;
pub mod api;
pub mod assessment;
pub mod gate;
pub mod identity;
pub mod profile;
pub mod resolver;
pub mod resources;
pub mod secrets;
pub mod store;
pub mod table;
pub mod token;
