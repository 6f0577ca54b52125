//! The plain values that the registry is built from.

use vstd::prelude::*;

verus! {

/// The thirty-two bytes by which the ledger knows an account.
pub type AccountId = [u8; 32];

/// A hash of thirty-two bytes: of a stream's content, of a digest, or of a
/// transaction.
pub type Hash256 = [u8; 32];

/// The height of a block.
pub type BlockNumber = u64;

/// The text that identifies a stream or a schema.
pub type IdentifierOf = Vec<u8>;

/// Whether a stream is revoked.
pub type StatusOf = bool;

/// The namespace prefix of stream identifiers.
pub const STREAM_IDENTIFIER_PREFIX: u16 = 43;

/// The length of a stream's identifier: two digits for each byte of the
/// prefix and of the content hash.
pub const STREAM_IDENTIFIER_LENGTH: usize = 68;

/// What an optional identifier holds, as a value of specifications.
pub open spec fn identifier_view(identifier: Option<IdentifierOf>) -> Option<Seq<u8>> {
    match identifier {
        Some(text) => Some(text@),
        None => None,
    }
}

/// A copy of an optional identifier.
pub fn clone_identifier(identifier: &Option<IdentifierOf>) -> (copy: Option<IdentifierOf>)
    ensures
        identifier_view(copy) == identifier_view(*identifier),
{
    match identifier {
        Some(text) => Some(crate::store::bytes_to_vec(text.as_slice())),
        None => None,
    }
}

} // verus!
