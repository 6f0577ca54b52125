//! Stream records and the entries of their histories.

use vstd::prelude::*;
use crate::primitives::{identifier_view, AccountId, BlockNumber, Hash256, IdentifierOf, StatusOf};

verus! {

/// The kind of operation that a history entry records.
#[derive(Clone, Copy, Debug, PartialEq, Eq, Structural)]
pub enum StreamCommitOf {
    Genesis,
    Update,
    Status,
    Remove,
    Digest,
}

/// One entry of a stream's history: what was done, and at which block.
#[derive(Clone, Copy, Debug, PartialEq, Eq, Structural)]
pub struct StreamCommit {
    /// The height of the block in which the operation was accepted.
    pub block: BlockNumber,
    /// The kind of operation.
    pub commit: StreamCommitOf,
}

/// What the registry holds of one stream.
#[derive(Clone, Debug, PartialEq, Eq)]
pub struct StreamDetails {
    /// The hash of the stream's current content.
    pub stream_hash: Hash256,
    /// The account that last changed the stream.
    pub controller: AccountId,
    /// The account the stream was issued to, if any.
    pub holder: Option<AccountId>,
    /// The schema the stream follows, if any.
    pub schema: Option<IdentifierOf>,
    /// The stream this one was linked to when it was created, if any.
    pub link: Option<IdentifierOf>,
    /// Whether the stream is revoked.
    pub revoked: StatusOf,
}

/// A stream record as a value of specifications.
pub struct StreamDetailsView {
    pub stream_hash: Hash256,
    pub controller: AccountId,
    pub holder: Option<AccountId>,
    pub schema: Option<Seq<u8>>,
    pub link: Option<Seq<u8>>,
    pub revoked: bool,
}

impl View for StreamDetails {
    type V = StreamDetailsView;

    open spec fn view(&self) -> StreamDetailsView {
        StreamDetailsView {
            stream_hash: self.stream_hash,
            controller: self.controller,
            holder: self.holder,
            schema: identifier_view(self.schema),
            link: identifier_view(self.link),
            revoked: self.revoked,
        }
    }
}

} // verus!
