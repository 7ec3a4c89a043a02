//! A small user-resource service, verified end to end: a router that maps a
//! method and a path pattern — literal segments, named placeholders, and a
//! trailing catch-all — to a handler and extracts the placeholder values,
//! and handlers that create and fetch one resource kind in a key-value
//! store keyed by email. Three shapes of the one entity are kept apart: the
//! inbound create body, the outbound public view — which has no password
//! field — and the stored record. The surrounding runtime hands requests in
//! as plain values and owns every outside effect.

pub mod router;
pub mod service;
pub mod user;

use vstd::prelude::*;

verus! {

/// The error taxonomy of the service: malformed input, a missing route or
/// record, and a storage collaborator failure.
#[derive(Clone, Copy, Debug, PartialEq, Eq, Structural)]
pub enum ApiError {
    BadRequest,
    NotFound,
    StorageError,
}

} // verus!
