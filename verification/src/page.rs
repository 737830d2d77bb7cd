use vstd::prelude::*;

verus! {

/// One page of a resource collection, as one request returns it: the
/// serialized JSON text of each item, and whether the server reports a
/// further page (a next cursor present in the envelope).
pub struct ResourcePage {
    pub items: Vec<String>,
    pub has_next: bool,
}

/// Why a page fetch failed. Any failure is fatal to the enclosing
/// resource's stream: there is no retry.
#[derive(Debug, PartialEq, Eq, Structural)]
pub enum FetchError {
    /// Connection failure, timeout, or a non-success status.
    Transport,
    /// A body that does not parse as the page envelope.
    Decode,
}

} // verus!
