//! Core logic of a session-authenticated portfolio backend.
//!
//! The crate models the pieces of the service that make decisions:
//! session state and the access guards, credential checking, the image
//! upload/commit/list/delete/reconcile pipeline, pagination, and the
//! request/response schemas. I/O (HTTP, database, filesystem) lives in the
//! surrounding application, which feeds plain values into these functions
//! and carries their results out.

pub mod auth;
pub mod credentials;
pub mod errors;
pub mod guard;
pub mod images;
pub mod pagination;
pub mod schemas;
pub mod session;
pub mod text;
pub mod translation;
