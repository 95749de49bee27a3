//! A client handle for a remote instance of the service. The handle itself
//! only carries the endpoint; the HTTP calls live with the transport, which
//! hands plain request and response values to and from this library.

use vstd::prelude::*;

verus! {

/// A handle on a remote notes service at a fixed endpoint URL.
pub struct NotesClient {
    pub endpoint: String,
}

impl NotesClient {
    /// Creates a client for the service at `endpoint`.
    pub fn new(endpoint: String) -> (r: NotesClient)
        ensures
            r.endpoint == endpoint,
    {
        NotesClient { endpoint }
    }
}

} // verus!
