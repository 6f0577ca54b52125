//! The registry itself: its four tables and the five operations on them.
//!
//! Every operation makes all of its checks before it writes anything, so a
//! refused call leaves the registry as it was.

use vstd::prelude::*;
use crate::error::{Error, SchemaError};
use crate::event::{Event, EventView};
use crate::identifier::{create_identifier, is_valid_identifier};
use crate::consistency::{consistent, lemma_step_keeps_consistency};
use crate::model::{empty_state, outcome, schema_of, step, Call, State};
use crate::origin::{ensure_force, ensure_participant, Origin};
use crate::primitives::{
    clone_identifier,
    identifier_view,
    AccountId,
    BlockNumber,
    Hash256,
    IdentifierOf,
    StatusOf,
    STREAM_IDENTIFIER_PREFIX,
};
use crate::signature::{signature_answer, verify_signature, Signature};
use crate::store::{bytes_to_vec, Table};
use crate::streams::{StreamCommit, StreamCommitOf, StreamDetails};

verus! {

/// The registry of streams.
pub struct Pallet {
    streams: Table<StreamDetails>,
    commits: Table<Vec<StreamCommit>>,
    hashes: Table<IdentifierOf>,
    digests: Table<IdentifierOf>,
}

impl View for Pallet {
    type V = State;

    closed spec fn view(&self) -> State {
        State {
            streams: self.streams@,
            commits: self.commits@,
            hashes: self.hashes@,
            digests: self.digests@,
        }
    }
}

/// What an operation returned, as a value of specifications.
pub open spec fn result_view(result: Result<Event, Error>) -> Result<EventView, Error> {
    match result {
        Ok(event) => Ok(event@),
        Err(error) => Err(error),
    }
}

/// Whether `after` and `result` are what `call` makes of `before`.
pub open spec fn answers(before: State, call: Call, after: State, result: Result<Event, Error>) -> bool {
    after == step(before, call) && result_view(result) == outcome(before, call)
}

/// A copy of a history.
fn clone_commits(entries: &Vec<StreamCommit>) -> (copy: Vec<StreamCommit>)
    ensures
        copy@ == entries@,
{
    let mut copy: Vec<StreamCommit> = Vec::new();
    let mut i: usize = 0;
    while i < entries.len()
        invariant
            i <= entries@.len(),
            copy@ == entries@.take(i as int),
        decreases entries@.len() - i,
    {
        copy.push(entries[i]);
        i += 1;
        assert(copy@ =~= entries@.take(i as int));
    }
    assert(entries@.take(entries@.len() as int) =~= entries@);
    copy
}

/// A copy of a stream record.
fn clone_details(details: &StreamDetails) -> (copy: StreamDetails)
    ensures
        copy@ == details@,
{
    StreamDetails {
        stream_hash: details.stream_hash,
        controller: details.controller,
        holder: details.holder,
        schema: clone_identifier(&details.schema),
        link: clone_identifier(&details.link),
        revoked: details.revoked,
    }
}

/// Appends `commit` to the history that `commits` holds for `identifier`.
/// No entry already there is touched.
fn store_tx(commits: &mut Table<Vec<StreamCommit>>, identifier: &[u8], commit: StreamCommit)
    ensures
        final(commits)@ == old(commits)@.insert(
            identifier@,
            (if old(commits)@.contains_key(identifier@) {
                old(commits)@[identifier@]
            } else {
                Seq::empty()
            }).push(commit),
        ),
{
    let mut entries: Vec<StreamCommit> = match commits.get(identifier) {
        Some(found) => clone_commits(found),
        None => Vec::new(),
    };
    entries.push(commit);
    commits.insert(bytes_to_vec(identifier), entries);
}

impl Pallet {
    #[verifier::type_invariant]
    spec fn is_consistent(self) -> bool {
        consistent(self@)
    }

    /// A registry that holds nothing.
    pub fn new() -> (pallet: Self)
        ensures
            pallet@ == empty_state(),
            consistent(pallet@),
    {
        Pallet { streams: Table::new(), commits: Table::new(), hashes: Table::new(), digests: Table::new() }
    }

    /// Takes the four tables out and leaves the registry empty.
    fn take(&mut self) -> (tables: Pallet)
        ensures
            tables@ == old(self)@,
            final(self)@ == empty_state(),
    {
        let mut tables = Pallet::new();
        core::mem::swap(self, &mut tables);
        tables
    }

    /// The record of the stream `identifier`.
    pub fn streams(&self, identifier: &[u8]) -> (details: Option<StreamDetails>)
        ensures
            consistent(self@),
            match details {
                Some(found) => self@.streams.contains_key(identifier@) && found@
                    == self@.streams[identifier@],
                None => !self@.streams.contains_key(identifier@),
            },
    {
        proof {
            use_type_invariant(self);
        }
        match self.streams.get(identifier) {
            Some(found) => Some(clone_details(found)),
            None => None,
        }
    }

    /// The schema that the schema registry has to be asked about before the
    /// stream `identifier` is changed: the stream's own.
    pub fn schema_of(&self, identifier: &[u8]) -> (schema: Option<IdentifierOf>)
        ensures
            consistent(self@),
            identifier_view(schema) == schema_of(self@, identifier@),
    {
        proof {
            use_type_invariant(self);
        }
        match self.streams.get(identifier) {
            Some(found) => clone_identifier(&found.schema),
            None => None,
        }
    }

    /// The history recorded for `identifier`.
    pub fn commits(&self, identifier: &[u8]) -> (entries: Option<Vec<StreamCommit>>)
        ensures
            consistent(self@),
            match entries {
                Some(found) => self@.commits.contains_key(identifier@) && found@
                    == self@.commits[identifier@],
                None => !self@.commits.contains_key(identifier@),
            },
    {
        proof {
            use_type_invariant(self);
        }
        match self.commits.get(identifier) {
            Some(found) => Some(clone_commits(found)),
            None => None,
        }
    }

    /// The identifier of the stream that the content hash `stream_hash` was
    /// anchored for.
    pub fn hashes_of(&self, stream_hash: &Hash256) -> (identifier: Option<IdentifierOf>)
        ensures
            consistent(self@),
            match identifier {
                Some(found) => self@.hashes.contains_key(stream_hash@) && found@
                    == self@.hashes[stream_hash@],
                None => !self@.hashes.contains_key(stream_hash@),
            },
    {
        proof {
            use_type_invariant(self);
        }
        match self.hashes.get(stream_hash.as_slice()) {
            Some(found) => Some(bytes_to_vec(found.as_slice())),
            None => None,
        }
    }

    /// The identifier of the stream that the digest hash `digest_hash` was
    /// attached to.
    pub fn digest_of(&self, digest_hash: &Hash256) -> (identifier: Option<IdentifierOf>)
        ensures
            consistent(self@),
            match identifier {
                Some(found) => self@.digests.contains_key(digest_hash@) && found@
                    == self@.digests[digest_hash@],
                None => !self@.digests.contains_key(digest_hash@),
            },
    {
        proof {
            use_type_invariant(self);
        }
        match self.digests.get(digest_hash.as_slice()) {
            Some(found) => Some(bytes_to_vec(found.as_slice())),
            None => None,
        }
    }

    /// Anchors a stream, given whether `creator`'s signature over
    /// `stream_hash` is good.
    ///
    /// `schema_status` is what the schema registry answered for `schema` and
    /// `creator`; it is not looked at where `schema` is `None`.
    pub fn apply_create(
        &mut self,
        origin: Origin,
        creator: AccountId,
        stream_hash: Hash256,
        holder: Option<AccountId>,
        schema: Option<IdentifierOf>,
        link: Option<IdentifierOf>,
        signature_valid: bool,
        schema_status: Result<(), SchemaError>,
        now: BlockNumber,
    ) -> (result: Result<Event, Error>)
        ensures
            consistent(final(self)@),
            answers(
                old(self)@,
                (Call::Create {
                    origin,
                    creator,
                    stream_hash,
                    holder,
                    schema: identifier_view(schema),
                    link: identifier_view(link),
                    signature_valid,
                    schema_status,
                    now,
                }),
                final(self)@,
                result,
            ),
    {
        proof {
            use_type_invariant(&*self);
        }
        if let Err(refusal) = ensure_participant(&origin) {
            return Err(refusal);
        }
        if !signature_valid {
            return Err(Error::InvalidSignature);
        }
        let identifier = create_identifier(stream_hash.as_slice(), STREAM_IDENTIFIER_PREFIX);
        if self.streams.contains_key(identifier.as_slice()) {
            return Err(Error::StreamAlreadyAnchored);
        }
        if schema.is_some() {
            if let Err(refusal) = schema_status {
                return Err(Error::Schema(refusal));
            }
        }
        if let Some(parent) = &link {
            match self.streams.get(parent.as_slice()) {
                None => {
                    return Err(Error::StreamLinkNotFound);
                },
                Some(details) => {
                    if details.revoked {
                        return Err(Error::StreamLinkRevoked);
                    }
                },
            }
        }
        if self.hashes.contains_key(stream_hash.as_slice()) {
            return Err(Error::HashAlreadyAnchored);
        }
        proof {
            lemma_step_keeps_consistency(
                self@,
                Call::Create {
                    origin,
                    creator,
                    stream_hash,
                    holder,
                    schema: identifier_view(schema),
                    link: identifier_view(link),
                    signature_valid,
                    schema_status,
                    now,
                },
            );
        }
        let Pallet { mut streams, mut commits, mut hashes, digests } = self.take();
        hashes.insert(bytes_to_vec(stream_hash.as_slice()), bytes_to_vec(identifier.as_slice()));
        store_tx(&mut commits, identifier.as_slice(), StreamCommit { block: now, commit: StreamCommitOf::Genesis });
        streams.insert(
            bytes_to_vec(identifier.as_slice()),
            StreamDetails { stream_hash, controller: creator, holder, schema, link, revoked: false },
        );
        *self = Pallet { streams, commits, hashes, digests };
        Ok(Event::Anchor(stream_hash, identifier, creator))
    }

    /// Gives a stream new content, given whether `updater`'s signature over
    /// `stream_hash` is good.
    ///
    /// `schema_status` is what the schema registry answered for the stream's
    /// schema and `updater`; it is not looked at where the stream has none.
    pub fn apply_update(
        &mut self,
        origin: Origin,
        identifier: IdentifierOf,
        updater: AccountId,
        stream_hash: Hash256,
        signature_valid: bool,
        schema_status: Result<(), SchemaError>,
        now: BlockNumber,
    ) -> (result: Result<Event, Error>)
        ensures
            consistent(final(self)@),
            answers(
                old(self)@,
                (Call::Update {
                    origin,
                    identifier: identifier@,
                    updater,
                    stream_hash,
                    signature_valid,
                    schema_status,
                    now,
                }),
                final(self)@,
                result,
            ),
    {
        proof {
            use_type_invariant(&*self);
        }
        if let Err(refusal) = ensure_participant(&origin) {
            return Err(refusal);
        }
        if self.hashes.contains_key(stream_hash.as_slice()) {
            return Err(Error::HashAlreadyAnchored);
        }
        if is_valid_identifier(identifier.as_slice(), STREAM_IDENTIFIER_PREFIX).is_err() {
            return Err(Error::InvalidIdentifier);
        }
        let previous = match self.streams.get(identifier.as_slice()) {
            Some(details) => clone_details(details),
            None => {
                return Err(Error::StreamNotFound);
            },
        };
        if previous.revoked {
            return Err(Error::StreamRevoked);
        }
        if !signature_valid {
            return Err(Error::InvalidSignature);
        }
        if previous.schema.is_some() {
            if let Err(refusal) = schema_status {
                return Err(Error::Schema(refusal));
            }
        }
        proof {
            lemma_step_keeps_consistency(
                self@,
                Call::Update {
                    origin,
                    identifier: identifier@,
                    updater,
                    stream_hash,
                    signature_valid,
                    schema_status,
                    now,
                },
            );
        }
        let Pallet { mut streams, mut commits, mut hashes, digests } = self.take();
        store_tx(&mut commits, identifier.as_slice(), StreamCommit { block: now, commit: StreamCommitOf::Update });
        hashes.insert(bytes_to_vec(stream_hash.as_slice()), bytes_to_vec(identifier.as_slice()));
        streams.insert(
            bytes_to_vec(identifier.as_slice()),
            StreamDetails {
                stream_hash,
                controller: updater,
                holder: previous.holder,
                schema: previous.schema,
                link: previous.link,
                revoked: previous.revoked,
            },
        );
        *self = Pallet { streams, commits, hashes, digests };
        Ok(Event::Update(identifier, stream_hash, updater))
    }

    /// Revokes or restores a stream, given whether `updater`'s signature over
    /// the transaction's hash is good.
    ///
    /// `schema_status` is what the schema registry answered for the stream's
    /// schema and `updater`; it is not looked at where the stream has none.
    pub fn apply_status(
        &mut self,
        origin: Origin,
        identifier: IdentifierOf,
        updater: AccountId,
        status: StatusOf,
        signature_valid: bool,
        schema_status: Result<(), SchemaError>,
        now: BlockNumber,
    ) -> (result: Result<Event, Error>)
        ensures
            consistent(final(self)@),
            answers(
                old(self)@,
                (Call::Status {
                    origin,
                    identifier: identifier@,
                    updater,
                    status,
                    signature_valid,
                    schema_status,
                    now,
                }),
                final(self)@,
                result,
            ),
    {
        proof {
            use_type_invariant(&*self);
        }
        if let Err(refusal) = ensure_participant(&origin) {
            return Err(refusal);
        }
        if is_valid_identifier(identifier.as_slice(), STREAM_IDENTIFIER_PREFIX).is_err() {
            return Err(Error::InvalidIdentifier);
        }
        let previous = match self.streams.get(identifier.as_slice()) {
            Some(details) => clone_details(details),
            None => {
                return Err(Error::StreamNotFound);
            },
        };
        if previous.revoked == status {
            return Err(Error::StatusChangeNotRequired);
        }
        if !signature_valid {
            return Err(Error::InvalidSignature);
        }
        if previous.schema.is_some() {
            if let Err(refusal) = schema_status {
                return Err(Error::Schema(refusal));
            }
        }
        proof {
            lemma_step_keeps_consistency(
                self@,
                Call::Status {
                    origin,
                    identifier: identifier@,
                    updater,
                    status,
                    signature_valid,
                    schema_status,
                    now,
                },
            );
        }
        let Pallet { mut streams, mut commits, hashes, digests } = self.take();
        store_tx(&mut commits, identifier.as_slice(), StreamCommit { block: now, commit: StreamCommitOf::Status });
        streams.insert(
            bytes_to_vec(identifier.as_slice()),
            StreamDetails {
                stream_hash: previous.stream_hash,
                controller: updater,
                holder: previous.holder,
                schema: previous.schema,
                link: previous.link,
                revoked: status,
            },
        );
        *self = Pallet { streams, commits, hashes, digests };
        Ok(Event::Status(identifier, updater))
    }

    /// Removes a stream. Its record goes; its history and the hashes anchored
    /// for it stay.
    pub fn remove(&mut self, origin: Origin, identifier: IdentifierOf, now: BlockNumber) -> (result:
        Result<Event, Error>)
        ensures
            consistent(final(self)@),
            answers(
                old(self)@,
                (Call::Remove { origin, identifier: identifier@, now }),
                final(self)@,
                result,
            ),
    {
        proof {
            use_type_invariant(&*self);
        }
        if let Err(refusal) = ensure_force(&origin) {
            return Err(refusal);
        }
        if is_valid_identifier(identifier.as_slice(), STREAM_IDENTIFIER_PREFIX).is_err() {
            return Err(Error::InvalidIdentifier);
        }
        if !self.streams.contains_key(identifier.as_slice()) {
            return Err(Error::StreamNotFound);
        }
        proof {
            lemma_step_keeps_consistency(self@, Call::Remove { origin, identifier: identifier@, now });
        }
        let Pallet { mut streams, mut commits, hashes, digests } = self.take();
        streams.remove(identifier.as_slice());
        store_tx(&mut commits, identifier.as_slice(), StreamCommit { block: now, commit: StreamCommitOf::Remove });
        *self = Pallet { streams, commits, hashes, digests };
        Ok(Event::Remove(identifier))
    }

    /// Attaches a digest to a stream, given whether `creator`'s signature
    /// over `digest_hash` is good. Nothing is added to the stream's history.
    ///
    /// `schema_status` is what the schema registry answered for the stream's
    /// schema and `creator`; it is not looked at where the stream has none.
    pub fn apply_digest(
        &mut self,
        origin: Origin,
        identifier: IdentifierOf,
        creator: AccountId,
        digest_hash: Hash256,
        signature_valid: bool,
        schema_status: Result<(), SchemaError>,
    ) -> (result: Result<Event, Error>)
        ensures
            consistent(final(self)@),
            answers(
                old(self)@,
                (Call::Digest {
                    origin,
                    identifier: identifier@,
                    creator,
                    digest_hash,
                    signature_valid,
                    schema_status,
                }),
                final(self)@,
                result,
            ),
    {
        proof {
            use_type_invariant(&*self);
        }
        if let Err(refusal) = ensure_participant(&origin) {
            return Err(refusal);
        }
        if self.digests.contains_key(digest_hash.as_slice()) {
            return Err(Error::HashAlreadyAnchored);
        }
        if is_valid_identifier(identifier.as_slice(), STREAM_IDENTIFIER_PREFIX).is_err() {
            return Err(Error::InvalidIdentifier);
        }
        match self.streams.get(identifier.as_slice()) {
            None => {
                return Err(Error::StreamNotFound);
            },
            Some(details) => {
                if details.revoked {
                    return Err(Error::StreamRevoked);
                }
                if !signature_valid {
                    return Err(Error::InvalidSignature);
                }
                if details.schema.is_some() {
                    if let Err(refusal) = schema_status {
                        return Err(Error::Schema(refusal));
                    }
                }
            },
        }
        proof {
            lemma_step_keeps_consistency(
                self@,
                Call::Digest {
                    origin,
                    identifier: identifier@,
                    creator,
                    digest_hash,
                    signature_valid,
                    schema_status,
                },
            );
        }
        let Pallet { streams, commits, hashes, mut digests } = self.take();
        digests.insert(bytes_to_vec(digest_hash.as_slice()), bytes_to_vec(identifier.as_slice()));
        *self = Pallet { streams, commits, hashes, digests };
        Ok(Event::Digest(identifier, digest_hash, creator))
    }
    /// Anchors a new stream under the identifier derived from `stream_hash`.
    ///
    /// The call is accepted where `origin` is a participant, `tx_signature`
    /// is `creator`'s signature over `stream_hash`, no stream has the derived
    /// identifier, the schema registry accepts `creator` for `schema`, the
    /// stream `link` exists and is not revoked, and `stream_hash` was never
    /// anchored. `schema_status` is what the schema registry answered for
    /// `schema` and `creator`; it is not looked at where `schema` is `None`.
    pub fn create(
        &mut self,
        origin: Origin,
        creator: AccountId,
        stream_hash: Hash256,
        holder: Option<AccountId>,
        schema: Option<IdentifierOf>,
        link: Option<IdentifierOf>,
        tx_signature: Signature,
        schema_status: Result<(), SchemaError>,
        now: BlockNumber,
    ) -> (result: Result<Event, Error>)
        ensures
            consistent(final(self)@),
            exists|valid: bool|
                #[trigger] signature_answer(tx_signature, stream_hash@, creator, valid) && answers(
                    old(self)@,
                    (Call::Create {
                        origin,
                        creator,
                        stream_hash,
                        holder,
                        schema: identifier_view(schema),
                        link: identifier_view(link),
                        signature_valid: valid,
                        schema_status,
                        now,
                    }),
                    final(self)@,
                    result,
                ),
    {
        let valid = verify_signature(&tx_signature, &stream_hash, &creator);
        assert(signature_answer(tx_signature, stream_hash@, creator, valid));
        self.apply_create(origin, creator, stream_hash, holder, schema, link, valid, schema_status, now)
    }

    /// Gives the stream `identifier` the new content hash `stream_hash` and
    /// makes `updater` its controller.
    ///
    /// The call is accepted where `origin` is a participant, `stream_hash`
    /// was never anchored, the stream exists and is not revoked,
    /// `tx_signature` is `updater`'s signature over `stream_hash`, and the
    /// schema registry accepts `updater` for the stream's schema.
    /// `schema_status` is what the schema registry answered for that schema
    /// and `updater`; it is not looked at where the stream has none.
    pub fn update(
        &mut self,
        origin: Origin,
        identifier: IdentifierOf,
        updater: AccountId,
        stream_hash: Hash256,
        tx_signature: Signature,
        schema_status: Result<(), SchemaError>,
        now: BlockNumber,
    ) -> (result: Result<Event, Error>)
        ensures
            consistent(final(self)@),
            exists|valid: bool|
                #[trigger] signature_answer(tx_signature, stream_hash@, updater, valid) && answers(
                    old(self)@,
                    (Call::Update {
                        origin,
                        identifier: identifier@,
                        updater,
                        stream_hash,
                        signature_valid: valid,
                        schema_status,
                        now,
                    }),
                    final(self)@,
                    result,
                ),
    {
        let valid = verify_signature(&tx_signature, &stream_hash, &updater);
        assert(signature_answer(tx_signature, stream_hash@, updater, valid));
        self.apply_update(origin, identifier, updater, stream_hash, valid, schema_status, now)
    }

    /// Revokes the stream `identifier` (`status` true) or restores it
    /// (`status` false), and makes `updater` its controller.
    ///
    /// The call is accepted where `origin` is a participant, the stream
    /// exists and does not have the status asked for, `tx_signature` is
    /// `updater`'s signature over `tx_hash`, and the schema registry accepts
    /// `updater` for the stream's schema. `schema_status` is what the schema
    /// registry answered for that schema and `updater`; it is not looked at
    /// where the stream has none.
    pub fn status(
        &mut self,
        origin: Origin,
        identifier: IdentifierOf,
        updater: AccountId,
        status: StatusOf,
        tx_hash: Hash256,
        tx_signature: Signature,
        schema_status: Result<(), SchemaError>,
        now: BlockNumber,
    ) -> (result: Result<Event, Error>)
        ensures
            consistent(final(self)@),
            exists|valid: bool|
                #[trigger] signature_answer(tx_signature, tx_hash@, updater, valid) && answers(
                    old(self)@,
                    (Call::Status {
                        origin,
                        identifier: identifier@,
                        updater,
                        status,
                        signature_valid: valid,
                        schema_status,
                        now,
                    }),
                    final(self)@,
                    result,
                ),
    {
        let valid = verify_signature(&tx_signature, &tx_hash, &updater);
        assert(signature_answer(tx_signature, tx_hash@, updater, valid));
        self.apply_status(origin, identifier, updater, status, valid, schema_status, now)
    }

    /// Attaches the digest hash `digest_hash` to the stream `identifier`.
    ///
    /// The call is accepted where `origin` is a participant, `digest_hash`
    /// was never attached, the stream exists and is not revoked,
    /// `tx_signature` is `creator`'s signature over `digest_hash`, and the
    /// schema registry accepts `creator` for the stream's schema.
    /// `schema_status` is what the schema registry answered for that schema
    /// and `creator`; it is not looked at where the stream has none.
    pub fn digest(
        &mut self,
        origin: Origin,
        identifier: IdentifierOf,
        creator: AccountId,
        digest_hash: Hash256,
        tx_signature: Signature,
        schema_status: Result<(), SchemaError>,
    ) -> (result: Result<Event, Error>)
        ensures
            consistent(final(self)@),
            exists|valid: bool|
                #[trigger] signature_answer(tx_signature, digest_hash@, creator, valid) && answers(
                    old(self)@,
                    (Call::Digest {
                        origin,
                        identifier: identifier@,
                        creator,
                        digest_hash,
                        signature_valid: valid,
                        schema_status,
                    }),
                    final(self)@,
                    result,
                ),
    {
        let valid = verify_signature(&tx_signature, &digest_hash, &creator);
        assert(signature_answer(tx_signature, digest_hash@, creator, valid));
        self.apply_digest(origin, identifier, creator, digest_hash, valid, schema_status)
    }
}

} // verus!
