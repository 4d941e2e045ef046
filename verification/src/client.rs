//! The value an HTTP fetch hands back to the pool's callers. The transport
//! that produces it (TLS, impersonation, proxy routing) is an external
//! collaborator and lives outside the verified core.

use vstd::prelude::*;

verus! {

/// A successful HTTP response: its status code and body text.
#[derive(Debug)]
pub struct ClientResponse {
    pub status: u16,
    pub content: String,
}

} // verus!
