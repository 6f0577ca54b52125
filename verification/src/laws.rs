//! What holds of the registry whatever calls are made on it.
//!
//! Each law is stated over the model of the registry, the same that the
//! operations' own contracts speak of.

use vstd::prelude::*;
use crate::error::{Error, SchemaError};
use crate::identifier::{
    content_of,
    identifier_of,
    is_identifier,
    lemma_content_recovered,
    lemma_identifier_is_derived,
};
use crate::consistency::{consistent, lemma_step_keeps_consistency, well_shaped};
use crate::model::{
    empty_state,
    failure,
    history,
    run,
    run_from,
    schema_asked,
    schema_failure,
    step,
    stream_identifier,
    Call,
    State,
};
use crate::primitives::{BlockNumber, Hash256, STREAM_IDENTIFIER_PREFIX};
use crate::streams::{StreamCommit, StreamCommitOf};

verus! {

/// Every hash that `before` has in one of its two indices is still there in
/// `after`, for the same identifier.
pub open spec fn indices_kept(before: State, after: State) -> bool {
    &&& forall|hash: Seq<u8>| #[trigger]
        before.hashes.contains_key(hash) ==> after.hashes.contains_key(hash) && after.hashes[hash]
            == before.hashes[hash]
    &&& forall|hash: Seq<u8>| #[trigger]
        before.digests.contains_key(hash) ==> after.digests.contains_key(hash)
            && after.digests[hash] == before.digests[hash]
}

/// The entries of a history are in the order of their blocks.
pub open spec fn chronological(entries: Seq<StreamCommit>) -> bool {
    forall|i: int, j: int| 0 <= i <= j < entries.len() ==> entries[i].block <= entries[j].block
}

/// Every history is in the order of its blocks, and none holds a block later
/// than `height`.
pub open spec fn chronological_until(state: State, height: BlockNumber) -> bool {
    forall|identifier: Seq<u8>| #[trigger]
        state.commits.contains_key(identifier) ==> {
            &&& chronological(state.commits[identifier])
            &&& forall|i: int|
                0 <= i < state.commits[identifier].len() ==> (
                #[trigger] state.commits[identifier][i]).block <= height
        }
}

/// The height of the block in which `call` is made, for the calls that
/// record one.
pub open spec fn block_of(call: Call) -> Option<BlockNumber> {
    match call {
        Call::Create { now, .. } => Some(now),
        Call::Update { now, .. } => Some(now),
        Call::Status { now, .. } => Some(now),
        Call::Remove { now, .. } => Some(now),
        Call::Digest { .. } => None,
    }
}

/// The answer of the signature check that came with `call`. A removal
/// carries no signature.
pub open spec fn signature_of(call: Call) -> Option<bool> {
    match call {
        Call::Create { signature_valid, .. } => Some(signature_valid),
        Call::Update { signature_valid, .. } => Some(signature_valid),
        Call::Status { signature_valid, .. } => Some(signature_valid),
        Call::Remove { .. } => None,
        Call::Digest { signature_valid, .. } => Some(signature_valid),
    }
}

/// The content hash that `call` asks to anchor, for the two calls that
/// anchor one.
pub open spec fn anchored_by(call: Call) -> Option<Hash256> {
    match call {
        Call::Create { stream_hash, .. } => Some(stream_hash),
        Call::Update { stream_hash, .. } => Some(stream_hash),
        _ => None,
    }
}

/// A refused call changes nothing.
pub proof fn lemma_refused_call_changes_nothing(state: State, call: Call)
    requires
        failure(state, call) is Some,
    ensures
        step(state, call) == state,
{
}

/// No sequence of calls makes a consistent registry inconsistent.
pub proof fn lemma_run_keeps_consistency(state: State, calls: Seq<Call>)
    requires
        consistent(state),
    ensures
        consistent(run_from(state, calls)),
    decreases calls.len(),
{
    if calls.len() > 0 {
        lemma_run_keeps_consistency(state, calls.drop_last());
        lemma_step_keeps_consistency(run_from(state, calls.drop_last()), calls.last());
    }
}

/// Whatever calls were made since the registry was empty, it is consistent.
pub proof fn lemma_run_is_consistent(calls: Seq<Call>)
    ensures
        consistent(run(calls)),
{
    lemma_run_keeps_consistency(empty_state(), calls);
}

/// No two records of a consistent registry have the same content hash.
pub proof fn lemma_content_hashes_unique(state: State, first: Seq<u8>, second: Seq<u8>)
    requires
        consistent(state),
        state.streams.contains_key(first),
        state.streams.contains_key(second),
        state.streams[first].stream_hash@ == state.streams[second].stream_hash@,
    ensures
        first == second,
{
}

/// Every record of a consistent registry is kept under the identifier that
/// is derived from a content hash: the one its stream was anchored with,
/// which the identifier still spells out.
pub proof fn lemma_record_keys_are_derived(state: State, identifier: Seq<u8>)
    requires
        consistent(state),
        state.streams.contains_key(identifier),
    ensures
        content_of(identifier).len() == 32,
        identifier == identifier_of(content_of(identifier), STREAM_IDENTIFIER_PREFIX),
        state.hashes.contains_key(content_of(identifier)),
        state.hashes[content_of(identifier)] == identifier,
{
    assert(state.commits.contains_key(identifier));
    lemma_identifier_is_derived(identifier, STREAM_IDENTIFIER_PREFIX);
}

/// A stream has a record exactly while it has a history that no removal has
/// ended.
pub proof fn lemma_record_while_not_removed(state: State, identifier: Seq<u8>)
    requires
        consistent(state),
    ensures
        state.streams.contains_key(identifier) <==> history(state, identifier).len() > 0 && history(
            state,
            identifier,
        ).last().commit != StreamCommitOf::Remove,
{
    if state.commits.contains_key(identifier) {
        assert(well_shaped(state.commits[identifier]));
    }
}

/// No call takes a hash out of an index, or leads it to another identifier.
pub proof fn lemma_step_keeps_indices(state: State, call: Call)
    ensures
        indices_kept(state, step(state, call)),
{
}

/// No sequence of calls takes a hash out of an index, or leads it to another
/// identifier.
pub proof fn lemma_run_keeps_indices(state: State, calls: Seq<Call>)
    ensures
        indices_kept(state, run_from(state, calls)),
    decreases calls.len(),
{
    if calls.len() > 0 {
        lemma_run_keeps_indices(state, calls.drop_last());
        lemma_step_keeps_indices(run_from(state, calls.drop_last()), calls.last());
    }
}

/// An accepted call that anchors a content hash puts it into the index.
pub proof fn lemma_anchored_hash_is_indexed(state: State, call: Call)
    requires
        failure(state, call) is None,
        anchored_by(call) is Some,
    ensures
        step(state, call).hashes.contains_key(anchored_by(call)->0@),
{
}

/// A call that asks to anchor a content hash that is in the index is
/// refused, whatever happened since the hash got there. An `update` by a
/// participant reports `HashAlreadyAnchored`. A `create` by a participant
/// with a good signature reports `StreamAlreadyAnchored` while the stream
/// derived from the hash exists; once that stream is gone it reports
/// `HashAlreadyAnchored`, where the schema registry consents and the link,
/// if there is one, names a stream that is not revoked.
pub proof fn lemma_used_hash_refused(state: State, later: Seq<Call>, call: Call)
    requires
        anchored_by(call) is Some,
        state.hashes.contains_key(anchored_by(call)->0@),
    ensures
        failure(run_from(state, later), call) is Some,
        call is Update && call->Update_origin is Participant ==> failure(run_from(state, later), call)
            == Some(Error::HashAlreadyAnchored),
        call is Create && call->Create_origin is Participant && call->Create_signature_valid
            && run_from(state, later).streams.contains_key(stream_identifier(call->Create_stream_hash))
            ==> failure(run_from(state, later), call) == Some(Error::StreamAlreadyAnchored),
        call is Create && call->Create_origin is Participant && call->Create_signature_valid
            && !run_from(state, later).streams.contains_key(stream_identifier(call->Create_stream_hash))
            && schema_failure(call->Create_schema, call->Create_schema_status) is None && (
        call->Create_link is Some ==> run_from(state, later).streams.contains_key(call->Create_link->0)
            && !run_from(state, later).streams[call->Create_link->0].revoked) ==> failure(
            run_from(state, later),
            call,
        ) == Some(Error::HashAlreadyAnchored),
{
    lemma_run_keeps_indices(state, later);
}

/// No call shortens or rewrites a history: what was recorded for an
/// identifier before the call is the beginning of what is recorded after it.
pub proof fn lemma_step_extends_history(state: State, call: Call, identifier: Seq<u8>)
    ensures
        history(state, identifier).is_prefix_of(history(step(state, call), identifier)),
{
}

/// No sequence of calls shortens or rewrites a history.
pub proof fn lemma_run_extends_history(state: State, calls: Seq<Call>, identifier: Seq<u8>)
    ensures
        history(state, identifier).is_prefix_of(history(run_from(state, calls), identifier)),
    decreases calls.len(),
{
    if calls.len() > 0 {
        let before = run_from(state, calls.drop_last());
        lemma_run_extends_history(state, calls.drop_last(), identifier);
        lemma_step_extends_history(before, calls.last(), identifier);
        let first = history(state, identifier);
        let middle = history(before, identifier);
        let last = history(step(before, calls.last()), identifier);
        assert(first.is_prefix_of(last)) by {
            assert(first =~= middle.subrange(0, first.len() as int));
            assert(middle =~= last.subrange(0, middle.len() as int));
            assert(first =~= last.subrange(0, first.len() as int));
        }
    }
}

/// An accepted call other than `digest` adds exactly one entry to the
/// history of its stream, with the block it was made in; `digest` and
/// refused calls add none.
pub proof fn lemma_step_records_once(state: State, call: Call, identifier: Seq<u8>)
    ensures
        history(step(state, call), identifier).len() <= history(state, identifier).len() + 1,
        failure(state, call) is Some || call is Digest ==> history(step(state, call), identifier)
            == history(state, identifier),
        history(step(state, call), identifier).len() == history(state, identifier).len() + 1
            ==> block_of(call) == Some(history(step(state, call), identifier).last().block),
{
}

/// While the calls arrive in the order of their blocks, every history is in
/// the order of its blocks.
pub proof fn lemma_step_keeps_chronology(state: State, call: Call, height: BlockNumber)
    requires
        chronological_until(state, height),
        block_of(call) is Some ==> height <= block_of(call)->0,
    ensures
        chronological_until(
            step(state, call),
            if block_of(call) is Some {
                block_of(call)->0
            } else {
                height
            },
        ),
{
    let after = step(state, call);
    let until = if block_of(call) is Some {
        block_of(call)->0
    } else {
        height
    };
    assert forall|identifier: Seq<u8>| #[trigger] after.commits.contains_key(identifier) implies {
        &&& chronological(after.commits[identifier])
        &&& forall|i: int|
            0 <= i < after.commits[identifier].len() ==> (#[trigger] after.commits[identifier][i]).block
                <= until
    } by {
        if state.commits.contains_key(identifier) {
            assert(chronological(state.commits[identifier]));
        }
    }
}

/// The block of the last call of `calls` that records one, or `start` where
/// none does.
pub open spec fn latest_block(calls: Seq<Call>, start: BlockNumber) -> BlockNumber
    decreases calls.len(),
{
    if calls.len() == 0 {
        start
    } else if block_of(calls.last()) is Some {
        block_of(calls.last())->0
    } else {
        latest_block(calls.drop_last(), start)
    }
}

/// The calls arrive in the order of their blocks, none before `start`.
pub open spec fn in_block_order(calls: Seq<Call>, start: BlockNumber) -> bool
    decreases calls.len(),
{
    calls.len() == 0 || (in_block_order(calls.drop_last(), start) && (block_of(calls.last()) is Some
        ==> latest_block(calls.drop_last(), start) <= block_of(calls.last())->0))
}

/// After any sequence of calls that arrive in the order of their blocks,
/// every history is in the order of its blocks.
pub proof fn lemma_run_keeps_chronology(state: State, calls: Seq<Call>, start: BlockNumber)
    requires
        chronological_until(state, start),
        in_block_order(calls, start),
    ensures
        chronological_until(run_from(state, calls), latest_block(calls, start)),
    decreases calls.len(),
{
    if calls.len() > 0 {
        lemma_run_keeps_chronology(state, calls.drop_last(), start);
        lemma_step_keeps_chronology(
            run_from(state, calls.drop_last()),
            calls.last(),
            latest_block(calls.drop_last(), start),
        );
    }
}

/// A call whose signature is not good is refused and changes nothing.
pub proof fn lemma_bad_signature_refused(state: State, call: Call)
    requires
        signature_of(call) == Some(false),
    ensures
        failure(state, call) is Some,
        step(state, call) == state,
{
}

/// A `create` whose signature is not good reports `InvalidSignature`, unless
/// its origin is no participant.
pub proof fn lemma_bad_signature_on_create(state: State, call: Call)
    requires
        call is Create,
        call->Create_origin is Participant,
        !call->Create_signature_valid,
    ensures
        failure(state, call) == Some(Error::InvalidSignature),
{
}

/// An `update` whose signature is not good reports `InvalidSignature`,
/// unless one of the checks made before the signature's fails: the origin,
/// the new hash, the identifier, the stream and its status.
pub proof fn lemma_bad_signature_on_update(state: State, call: Call)
    requires
        call is Update,
        call->Update_origin is Participant,
        !state.hashes.contains_key(call->Update_stream_hash@),
        state.streams.contains_key(call->Update_identifier),
        is_identifier(call->Update_identifier, STREAM_IDENTIFIER_PREFIX),
        !state.streams[call->Update_identifier].revoked,
        !call->Update_signature_valid,
    ensures
        failure(state, call) == Some(Error::InvalidSignature),
{
}

/// A `status` whose signature is not good reports `InvalidSignature`, unless
/// one of the checks made before the signature's fails: the origin, the
/// identifier, the stream and the status asked for.
pub proof fn lemma_bad_signature_on_status(state: State, call: Call)
    requires
        call is Status,
        call->Status_origin is Participant,
        state.streams.contains_key(call->Status_identifier),
        is_identifier(call->Status_identifier, STREAM_IDENTIFIER_PREFIX),
        state.streams[call->Status_identifier].revoked != call->Status_status,
        !call->Status_signature_valid,
    ensures
        failure(state, call) == Some(Error::InvalidSignature),
{
}

/// A `digest` whose signature is not good reports `InvalidSignature`, unless
/// one of the checks made before the signature's fails: the origin, the
/// digest hash, the identifier, the stream and its status.
pub proof fn lemma_bad_signature_on_digest(state: State, call: Call)
    requires
        call is Digest,
        call->Digest_origin is Participant,
        !state.digests.contains_key(call->Digest_digest_hash@),
        state.streams.contains_key(call->Digest_identifier),
        is_identifier(call->Digest_identifier, STREAM_IDENTIFIER_PREFIX),
        !state.streams[call->Digest_identifier].revoked,
        !call->Digest_signature_valid,
    ensures
        failure(state, call) == Some(Error::InvalidSignature),
{
}

/// The answer of the schema registry that came with `call`.
pub open spec fn schema_answer_of(call: Call) -> Option<Result<(), SchemaError>> {
    match call {
        Call::Create { schema_status, .. } => Some(schema_status),
        Call::Update { schema_status, .. } => Some(schema_status),
        Call::Status { schema_status, .. } => Some(schema_status),
        Call::Remove { .. } => None,
        Call::Digest { schema_status, .. } => Some(schema_status),
    }
}

/// A call about a stream with a schema is accepted only with the schema
/// registry's consent.
pub proof fn lemma_accepted_call_had_consent(state: State, call: Call)
    requires
        failure(state, call) is None,
        schema_asked(state, call) is Some,
    ensures
        schema_answer_of(call) matches Some(Ok(_)),
{
}

/// A stream is anchored with a link only to a stream that exists and is not
/// revoked at that time.
pub proof fn lemma_link_is_live(state: State, call: Call)
    requires
        call is Create,
        call->Create_link is Some,
        failure(state, call) is None,
    ensures
        state.streams.contains_key(call->Create_link->0),
        !state.streams[call->Create_link->0].revoked,
{
}

/// Once a `status` call has revoked a stream, an `update` or a `digest` on
/// it by a participant, with a hash not used before, reports
/// `StreamRevoked`.
pub proof fn lemma_revoked_stream_is_closed(state: State, revoke: Call, later: Call)
    requires
        revoke is Status,
        revoke->Status_status,
        failure(state, revoke) is None,
        later is Update || later is Digest,
        later is Update ==> {
            &&& later->Update_identifier == revoke->Status_identifier
            &&& later->Update_origin is Participant
            &&& !step(state, revoke).hashes.contains_key(later->Update_stream_hash@)
        },
        later is Digest ==> {
            &&& later->Digest_identifier == revoke->Status_identifier
            &&& later->Digest_origin is Participant
            &&& !step(state, revoke).digests.contains_key(later->Digest_digest_hash@)
        },
    ensures
        step(state, revoke).streams[revoke->Status_identifier].revoked,
        failure(step(state, revoke), later) == Some(Error::StreamRevoked),
{
}

/// A `status` call by a participant that restores a revoked stream, with a
/// good signature and the schema registry's consent, is accepted, and after
/// it an `update` or a `digest` on the stream by a participant, with a hash
/// not used before, a good signature and the schema registry's consent, is
/// accepted too.
pub proof fn lemma_restored_stream_is_open(state: State, restore: Call, later: Call)
    requires
        restore is Status,
        !restore->Status_status,
        restore->Status_origin is Participant,
        restore->Status_signature_valid,
        is_identifier(restore->Status_identifier, STREAM_IDENTIFIER_PREFIX),
        state.streams.contains_key(restore->Status_identifier),
        state.streams[restore->Status_identifier].revoked,
        schema_failure(state.streams[restore->Status_identifier].schema, restore->Status_schema_status)
            is None,
        later is Update || later is Digest,
        later is Update ==> {
            &&& later->Update_identifier == restore->Status_identifier
            &&& later->Update_origin is Participant
            &&& later->Update_signature_valid
            &&& !state.hashes.contains_key(later->Update_stream_hash@)
            &&& schema_failure(
                state.streams[restore->Status_identifier].schema,
                later->Update_schema_status,
            ) is None
        },
        later is Digest ==> {
            &&& later->Digest_identifier == restore->Status_identifier
            &&& later->Digest_origin is Participant
            &&& later->Digest_signature_valid
            &&& !state.digests.contains_key(later->Digest_digest_hash@)
            &&& schema_failure(
                state.streams[restore->Status_identifier].schema,
                later->Digest_schema_status,
            ) is None
        },
    ensures
        failure(state, restore) is None,
        !step(state, restore).streams[restore->Status_identifier].revoked,
        failure(step(state, restore), later) is None,
{
}

/// A `status` call by a participant that asks for the status its stream
/// already has reports `StatusChangeNotRequired` and changes nothing.
pub proof fn lemma_same_status_refused(state: State, call: Call)
    requires
        call is Status,
        call->Status_origin is Participant,
        is_identifier(call->Status_identifier, STREAM_IDENTIFIER_PREFIX),
        state.streams.contains_key(call->Status_identifier),
        state.streams[call->Status_identifier].revoked == call->Status_status,
    ensures
        failure(state, call) == Some(Error::StatusChangeNotRequired),
        step(state, call) == state,
{
}

/// The identifier that `call` names as the stream it works on. A `create`
/// names none: it derives its own.
pub open spec fn target_of(call: Call) -> Option<Seq<u8>> {
    match call {
        Call::Create { .. } => None,
        Call::Update { identifier, .. } => Some(identifier),
        Call::Status { identifier, .. } => Some(identifier),
        Call::Remove { identifier, .. } => Some(identifier),
        Call::Digest { identifier, .. } => Some(identifier),
    }
}

/// Whether `call` passes the checks that are made before its stream is
/// looked up: its origin has the capability the operation asks for, and the
/// hash it brings, if any, is in no index yet.
pub open spec fn reaches_lookup(state: State, call: Call) -> bool {
    match call {
        Call::Create { .. } => false,
        Call::Update { origin, stream_hash, .. } => origin is Participant
            && !state.hashes.contains_key(stream_hash@),
        Call::Status { origin, .. } => origin is Participant,
        Call::Remove { origin, .. } => origin is Force,
        Call::Digest { origin, digest_hash, .. } => origin is Participant
            && !state.digests.contains_key(digest_hash@),
    }
}

/// An accepted `remove` takes the record away, adds one entry to the
/// history and leaves both indices as they were.
pub proof fn lemma_remove_keeps_indices(state: State, remove: Call)
    requires
        remove is Remove,
        failure(state, remove) is None,
    ensures
        !step(state, remove).streams.contains_key(remove->Remove_identifier),
        step(state, remove).hashes == state.hashes,
        step(state, remove).digests == state.digests,
        history(step(state, remove), remove->Remove_identifier) == history(
            state,
            remove->Remove_identifier,
        ).push(
            StreamCommit { block: remove->Remove_now, commit: StreamCommitOf::Remove },
        ),
{
}

/// A stream that was removed never comes back: whatever calls follow, no
/// record is kept under its identifier again.
pub proof fn lemma_removed_stream_stays_removed(state: State, remove: Call, later: Seq<Call>)
    requires
        consistent(state),
        remove is Remove,
        failure(state, remove) is None,
    ensures
        !run_from(step(state, remove), later).streams.contains_key(remove->Remove_identifier),
    decreases later.len(),
{
    let identifier = remove->Remove_identifier;
    let removed = step(state, remove);
    assert(state.streams.contains_key(identifier));
    assert(removed.hashes.contains_key(content_of(identifier)));
    if later.len() > 0 {
        let before = run_from(removed, later.drop_last());
        lemma_removed_stream_stays_removed(state, remove, later.drop_last());
        lemma_run_keeps_indices(removed, later.drop_last());
        assert(before.hashes.contains_key(content_of(identifier)));
        match later.last() {
            Call::Create { stream_hash, .. } => {
                lemma_content_recovered(stream_hash@, STREAM_IDENTIFIER_PREFIX);
            },
            _ => {},
        }
    }
}

/// After a stream was removed, every call that names its identifier and
/// gets as far as looking the stream up reports `StreamNotFound`, whatever
/// calls were made in between.
pub proof fn lemma_removed_stream_not_found(state: State, remove: Call, between: Seq<Call>, call: Call)
    requires
        consistent(state),
        remove is Remove,
        failure(state, remove) is None,
        target_of(call) == Some(remove->Remove_identifier),
        reaches_lookup(run_from(step(state, remove), between), call),
    ensures
        failure(run_from(step(state, remove), between), call) == Some(Error::StreamNotFound),
{
    lemma_removed_stream_stays_removed(state, remove, between);
}

} // verus!
