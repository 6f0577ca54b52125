//! The failures that an operation on the registry can report.

use vstd::prelude::*;

verus! {

/// A failure that the schema registry reported. The registry of streams does
/// not look into it: it hands it on as it came.
#[derive(Clone, Copy, Debug, PartialEq, Eq)]
pub struct SchemaError {
    /// The place of the schema registry among the ledger's modules.
    pub index: u8,
    /// The schema registry's own encoding of the failure.
    pub error: [u8; 4],
}

/// Why an operation was refused. A refused operation changes nothing.
#[derive(Clone, Copy, Debug, PartialEq, Eq)]
pub enum Error {
    /// A stream with this identifier is anchored already.
    StreamAlreadyAnchored,
    /// No stream has this identifier.
    StreamNotFound,
    /// The stream is revoked.
    StreamRevoked,
    /// The stream already has the status asked for.
    StatusChangeNotRequired,
    /// The origin is not allowed to do this.
    UnauthorizedOperation,
    /// No stream has the identifier given as link.
    StreamLinkNotFound,
    /// The stream given as link is revoked.
    StreamLinkRevoked,
    /// The signature was not made over the hash by the account named.
    InvalidSignature,
    /// The hash is anchored already.
    HashAlreadyAnchored,
    /// The signature is no longer accepted. No operation reports this yet.
    ExpiredSignature,
    /// The text is not an identifier of a stream.
    InvalidIdentifier,
    /// The schema registry refused the account for the stream's schema.
    Schema(SchemaError),
}

} // verus!
