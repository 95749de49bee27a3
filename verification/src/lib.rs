//! A personal note-taking service core: notes and lists with a curated tag
//! vocabulary, owned by an opaque user string, stored behind a swappable
//! storage abstraction with an in-memory backend and a relational row mapping.

use vstd::prelude::*;

pub mod client;
pub mod codec;
pub mod ids;
pub mod service;
pub mod storage;
pub mod strutil;
pub mod timefmt;
pub mod types;

verus! {

/// The error taxonomy of the service and storage layers.
///
/// Every fallible operation reports exactly one of these kinds; no error is
/// swallowed, and partial success is not modeled.
#[derive(Clone, Copy, Debug, PartialEq, Eq, Structural)]
pub enum NoteError {
    /// No record exists for the given id or owner.
    NotFound,
    /// A duplicate id on insert, or more than one stored row for one id.
    Conflict,
    /// Archiving was requested for a note whose archive time is already set.
    AlreadyArchived,
    /// Malformed input, e.g. an unparsable or duplicate tag read from a row.
    ValidationError,
    /// The persistence backend could not be reached.
    StoreUnavailable,
    /// A capability that is explicitly unfinished on the chosen backend.
    NotImplemented,
}

} // verus!
