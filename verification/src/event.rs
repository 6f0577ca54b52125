//! What an accepted operation tells the ledger.

use vstd::prelude::*;
use crate::primitives::{AccountId, Hash256, IdentifierOf};

verus! {

/// The one event of an accepted operation.
#[derive(Clone, Debug, PartialEq, Eq)]
pub enum Event {
    /// A stream was anchored: its hash, its identifier, its creator.
    Anchor(Hash256, IdentifierOf, AccountId),
    /// A stream has new content: its identifier, the new hash, the updater.
    Update(IdentifierOf, Hash256, AccountId),
    /// A digest was attached: the stream's identifier, the digest's hash, the
    /// account that attached it.
    Digest(IdentifierOf, Hash256, AccountId),
    /// A stream was revoked or restored: its identifier, the updater.
    Status(IdentifierOf, AccountId),
    /// A stream was removed: its identifier.
    Remove(IdentifierOf),
}

/// An event as a value of specifications.
pub enum EventView {
    Anchor(Hash256, Seq<u8>, AccountId),
    Update(Seq<u8>, Hash256, AccountId),
    Digest(Seq<u8>, Hash256, AccountId),
    Status(Seq<u8>, AccountId),
    Remove(Seq<u8>),
}

impl View for Event {
    type V = EventView;

    open spec fn view(&self) -> EventView {
        match *self {
            Event::Anchor(hash, identifier, who) => EventView::Anchor(hash, identifier@, who),
            Event::Update(identifier, hash, who) => EventView::Update(identifier@, hash, who),
            Event::Digest(identifier, hash, who) => EventView::Digest(identifier@, hash, who),
            Event::Status(identifier, who) => EventView::Status(identifier@, who),
            Event::Remove(identifier) => EventView::Remove(identifier@),
        }
    }
}

} // verus!
