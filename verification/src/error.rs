use vstd::prelude::*;

verus! {

/// The failure taxonomy of the bridge. Every failure is surfaced
/// synchronously as the result of the call; none are retried or logged.
#[derive(Clone, Copy, Debug, PartialEq, Eq, Structural)]
pub enum Error {
    /// A host chunk stream produced an item that could not be converted
    /// to bytes, or itself failed.
    HostStream,
    /// The host fetch exchange failed at the network layer
    /// (unreachable, refused, timed out).
    Transport,
    /// Headers or body could not be assembled into a valid
    /// host-primitive request or response.
    Construction,
    /// The mandatory "te" header was missing from the outgoing request;
    /// treated as unrecoverable caller misuse, not a transient condition.
    MissingTeHeader,
}

} // verus!
