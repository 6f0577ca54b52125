//! The registry as a mathematical object: its state, the calls made on it,
//! and what each call does.

use vstd::prelude::*;
use crate::error::{Error, SchemaError};
use crate::event::EventView;
use crate::identifier::{identifier_of, is_identifier};
use crate::origin::Origin;
use crate::primitives::{AccountId, BlockNumber, Hash256, STREAM_IDENTIFIER_PREFIX};
use crate::streams::{StreamCommit, StreamCommitOf, StreamDetailsView};

verus! {

/// The four tables of the registry.
pub struct State {
    /// The record of each stream, by its identifier.
    pub streams: Map<Seq<u8>, StreamDetailsView>,
    /// The history of each identifier.
    pub commits: Map<Seq<u8>, Seq<StreamCommit>>,
    /// For each content hash ever anchored, the identifier of its stream.
    pub hashes: Map<Seq<u8>, Seq<u8>>,
    /// For each digest hash ever attached, the identifier of its stream.
    pub digests: Map<Seq<u8>, Seq<u8>>,
}

/// One call on the registry, together with what the world outside answered
/// for it: whether the signature was good, what the schema registry said of
/// the acting account, and the height of the current block.
pub enum Call {
    Create {
        origin: Origin,
        creator: AccountId,
        stream_hash: Hash256,
        holder: Option<AccountId>,
        schema: Option<Seq<u8>>,
        link: Option<Seq<u8>>,
        signature_valid: bool,
        schema_status: Result<(), SchemaError>,
        now: BlockNumber,
    },
    Update {
        origin: Origin,
        identifier: Seq<u8>,
        updater: AccountId,
        stream_hash: Hash256,
        signature_valid: bool,
        schema_status: Result<(), SchemaError>,
        now: BlockNumber,
    },
    Status {
        origin: Origin,
        identifier: Seq<u8>,
        updater: AccountId,
        status: bool,
        signature_valid: bool,
        schema_status: Result<(), SchemaError>,
        now: BlockNumber,
    },
    Remove { origin: Origin, identifier: Seq<u8>, now: BlockNumber },
    Digest {
        origin: Origin,
        identifier: Seq<u8>,
        creator: AccountId,
        digest_hash: Hash256,
        signature_valid: bool,
        schema_status: Result<(), SchemaError>,
    },
}

/// The registry before any call.
pub open spec fn empty_state() -> State {
    State { streams: Map::empty(), commits: Map::empty(), hashes: Map::empty(), digests: Map::empty() }
}

/// The identifier of the stream anchored with the content hash `stream_hash`.
pub open spec fn stream_identifier(stream_hash: Hash256) -> Seq<u8> {
    identifier_of(stream_hash@, STREAM_IDENTIFIER_PREFIX)
}

/// The history of `identifier`: empty as long as nothing was recorded.
pub open spec fn history(state: State, identifier: Seq<u8>) -> Seq<StreamCommit> {
    if state.commits.contains_key(identifier) {
        state.commits[identifier]
    } else {
        Seq::empty()
    }
}

/// The histories after one more entry for `identifier`.
pub open spec fn recorded(state: State, identifier: Seq<u8>, block: BlockNumber, commit: StreamCommitOf) -> Map<
    Seq<u8>,
    Seq<StreamCommit>,
> {
    state.commits.insert(identifier, history(state, identifier).push(StreamCommit { block, commit }))
}

/// The schema of the stream `identifier`: `None` where it has none, or where
/// there is no such stream.
pub open spec fn schema_of(state: State, identifier: Seq<u8>) -> Option<Seq<u8>> {
    if state.streams.contains_key(identifier) {
        state.streams[identifier].schema
    } else {
        None
    }
}

/// The schema that the answer `schema_status` of a call is about: the one
/// the new stream is to follow, or the one the stream already follows. A
/// removal asks nothing.
pub open spec fn schema_asked(state: State, call: Call) -> Option<Seq<u8>> {
    match call {
        Call::Create { schema, .. } => schema,
        Call::Update { identifier, .. } => schema_of(state, identifier),
        Call::Status { identifier, .. } => schema_of(state, identifier),
        Call::Remove { .. } => None,
        Call::Digest { identifier, .. } => schema_of(state, identifier),
    }
}

/// The failure, if any, of asking the schema registry about a stream's
/// schema. A stream without a schema has nothing to ask.
pub open spec fn schema_failure(schema: Option<Seq<u8>>, schema_status: Result<(), SchemaError>) -> Option<
    Error,
> {
    match (schema, schema_status) {
        (Some(_), Err(refusal)) => Some(Error::Schema(refusal)),
        _ => None,
    }
}

/// Why `call` is refused in `state`, or `None` where it is accepted. The
/// checks are made in the order written, and the first that fails decides.
pub open spec fn failure(state: State, call: Call) -> Option<Error> {
    match call {
        Call::Create { origin, stream_hash, schema, link, signature_valid, schema_status, .. } => {
            if !(origin is Participant) {
                Some(Error::UnauthorizedOperation)
            } else if !signature_valid {
                Some(Error::InvalidSignature)
            } else if state.streams.contains_key(stream_identifier(stream_hash)) {
                Some(Error::StreamAlreadyAnchored)
            } else if schema_failure(schema, schema_status) is Some {
                schema_failure(schema, schema_status)
            } else if link is Some && !state.streams.contains_key(link->0) {
                Some(Error::StreamLinkNotFound)
            } else if link is Some && state.streams[link->0].revoked {
                Some(Error::StreamLinkRevoked)
            } else if state.hashes.contains_key(stream_hash@) {
                Some(Error::HashAlreadyAnchored)
            } else {
                None
            }
        },
        Call::Update { origin, identifier, stream_hash, signature_valid, schema_status, .. } => {
            if !(origin is Participant) {
                Some(Error::UnauthorizedOperation)
            } else if state.hashes.contains_key(stream_hash@) {
                Some(Error::HashAlreadyAnchored)
            } else if !is_identifier(identifier, STREAM_IDENTIFIER_PREFIX) {
                Some(Error::InvalidIdentifier)
            } else if !state.streams.contains_key(identifier) {
                Some(Error::StreamNotFound)
            } else if state.streams[identifier].revoked {
                Some(Error::StreamRevoked)
            } else if !signature_valid {
                Some(Error::InvalidSignature)
            } else {
                schema_failure(state.streams[identifier].schema, schema_status)
            }
        },
        Call::Status { origin, identifier, status, signature_valid, schema_status, .. } => {
            if !(origin is Participant) {
                Some(Error::UnauthorizedOperation)
            } else if !is_identifier(identifier, STREAM_IDENTIFIER_PREFIX) {
                Some(Error::InvalidIdentifier)
            } else if !state.streams.contains_key(identifier) {
                Some(Error::StreamNotFound)
            } else if state.streams[identifier].revoked == status {
                Some(Error::StatusChangeNotRequired)
            } else if !signature_valid {
                Some(Error::InvalidSignature)
            } else {
                schema_failure(state.streams[identifier].schema, schema_status)
            }
        },
        Call::Remove { origin, identifier, .. } => {
            if !(origin is Force) {
                Some(Error::UnauthorizedOperation)
            } else if !is_identifier(identifier, STREAM_IDENTIFIER_PREFIX) {
                Some(Error::InvalidIdentifier)
            } else if !state.streams.contains_key(identifier) {
                Some(Error::StreamNotFound)
            } else {
                None
            }
        },
        Call::Digest { origin, identifier, digest_hash, signature_valid, schema_status, .. } => {
            if !(origin is Participant) {
                Some(Error::UnauthorizedOperation)
            } else if state.digests.contains_key(digest_hash@) {
                Some(Error::HashAlreadyAnchored)
            } else if !is_identifier(identifier, STREAM_IDENTIFIER_PREFIX) {
                Some(Error::InvalidIdentifier)
            } else if !state.streams.contains_key(identifier) {
                Some(Error::StreamNotFound)
            } else if state.streams[identifier].revoked {
                Some(Error::StreamRevoked)
            } else if !signature_valid {
                Some(Error::InvalidSignature)
            } else {
                schema_failure(state.streams[identifier].schema, schema_status)
            }
        },
    }
}

/// The registry after `call`, where it is accepted in `state`.
pub open spec fn effect(state: State, call: Call) -> State {
    match call {
        Call::Create { creator, stream_hash, holder, schema, link, now, .. } => State {
            streams: state.streams.insert(
                stream_identifier(stream_hash),
                StreamDetailsView { stream_hash, controller: creator, holder, schema, link, revoked: false },
            ),
            commits: recorded(state, stream_identifier(stream_hash), now, StreamCommitOf::Genesis),
            hashes: state.hashes.insert(stream_hash@, stream_identifier(stream_hash)),
            digests: state.digests,
        },
        Call::Update { identifier, updater, stream_hash, now, .. } => State {
            streams: state.streams.insert(
                identifier,
                StreamDetailsView { stream_hash, controller: updater, ..state.streams[identifier] },
            ),
            commits: recorded(state, identifier, now, StreamCommitOf::Update),
            hashes: state.hashes.insert(stream_hash@, identifier),
            digests: state.digests,
        },
        Call::Status { identifier, updater, status, now, .. } => State {
            streams: state.streams.insert(
                identifier,
                StreamDetailsView { controller: updater, revoked: status, ..state.streams[identifier] },
            ),
            commits: recorded(state, identifier, now, StreamCommitOf::Status),
            hashes: state.hashes,
            digests: state.digests,
        },
        Call::Remove { identifier, now, .. } => State {
            streams: state.streams.remove(identifier),
            commits: recorded(state, identifier, now, StreamCommitOf::Remove),
            hashes: state.hashes,
            digests: state.digests,
        },
        Call::Digest { identifier, digest_hash, .. } => State {
            streams: state.streams,
            commits: state.commits,
            hashes: state.hashes,
            digests: state.digests.insert(digest_hash@, identifier),
        },
    }
}

/// The event of `call`, where it is accepted.
pub open spec fn event_of(call: Call) -> EventView {
    match call {
        Call::Create { creator, stream_hash, .. } => EventView::Anchor(
            stream_hash,
            stream_identifier(stream_hash),
            creator,
        ),
        Call::Update { identifier, updater, stream_hash, .. } => EventView::Update(
            identifier,
            stream_hash,
            updater,
        ),
        Call::Status { identifier, updater, .. } => EventView::Status(identifier, updater),
        Call::Remove { identifier, .. } => EventView::Remove(identifier),
        Call::Digest { identifier, creator, digest_hash, .. } => EventView::Digest(
            identifier,
            digest_hash,
            creator,
        ),
    }
}

/// The registry after `call`: changed where the call is accepted, the same
/// where it is refused.
pub open spec fn step(state: State, call: Call) -> State {
    if failure(state, call) is None {
        effect(state, call)
    } else {
        state
    }
}

/// What `call` returns in `state`: its event, or why it is refused.
pub open spec fn outcome(state: State, call: Call) -> Result<EventView, Error> {
    match failure(state, call) {
        Some(error) => Err(error),
        None => Ok(event_of(call)),
    }
}

/// The registry after a sequence of calls made on `state`, one after the
/// other.
pub open spec fn run_from(state: State, calls: Seq<Call>) -> State
    decreases calls.len(),
{
    if calls.len() == 0 {
        state
    } else {
        step(run_from(state, calls.drop_last()), calls.last())
    }
}

/// The registry after a sequence of calls on the empty registry.
pub open spec fn run(calls: Seq<Call>) -> State {
    run_from(empty_state(), calls)
}

} // verus!
