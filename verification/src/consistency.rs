//! What is true of every registry: how its records, its histories and its
//! two indices hang together.

use vstd::prelude::*;
use crate::identifier::{
    content_of,
    is_identifier,
    lemma_content_recovered,
    lemma_derived_is_identifier,
};
use crate::model::{empty_state, failure, history, step, stream_identifier, Call, State};
use crate::primitives::{STREAM_IDENTIFIER_LENGTH, STREAM_IDENTIFIER_PREFIX};
use crate::streams::{StreamCommit, StreamCommitOf};

verus! {

/// A history tells the life of one stream: it begins with the stream's
/// anchoring, which occurs once; a removal, if there is one, ends it; and no
/// entry is of the kind `Digest`.
pub open spec fn well_shaped(entries: Seq<StreamCommit>) -> bool {
    &&& entries.len() >= 1
    &&& entries[0].commit == StreamCommitOf::Genesis
    &&& forall|i: int| 0 < i < entries.len() ==> (#[trigger] entries[i]).commit != StreamCommitOf::Genesis
    &&& forall|i: int|
        0 <= i < entries.len() - 1 ==> (#[trigger] entries[i]).commit != StreamCommitOf::Remove
    &&& forall|i: int| 0 <= i < entries.len() ==> (#[trigger] entries[i]).commit != StreamCommitOf::Digest
}

/// Every record has a history that no removal has ended, and the index of
/// content hashes leads from the record's current hash to its identifier.
pub open spec fn records_indexed(state: State) -> bool {
    forall|identifier: Seq<u8>| #[trigger]
        state.streams.contains_key(identifier) ==> {
            &&& state.commits.contains_key(identifier)
            &&& state.commits[identifier].last().commit != StreamCommitOf::Remove
            &&& state.hashes.contains_key(state.streams[identifier].stream_hash@)
            &&& state.hashes[state.streams[identifier].stream_hash@] == identifier
        }
}

/// Every history is kept under an identifier of this registry, as long as
/// the identifier of a content hash, and is well shaped; the content hash
/// that the identifier was derived from is in the index and leads to it; and
/// while no removal has ended the history, the stream has a record.
pub open spec fn histories_kept(state: State) -> bool {
    forall|identifier: Seq<u8>| #[trigger]
        state.commits.contains_key(identifier) ==> {
            &&& is_identifier(identifier, STREAM_IDENTIFIER_PREFIX)
            &&& identifier.len() == STREAM_IDENTIFIER_LENGTH
            &&& well_shaped(state.commits[identifier])
            &&& state.hashes.contains_key(content_of(identifier))
            &&& state.hashes[content_of(identifier)] == identifier
            &&& state.commits[identifier].last().commit != StreamCommitOf::Remove
                ==> state.streams.contains_key(identifier)
        }
}

/// Every hash in one of the two indices leads to an identifier that has a
/// history.
pub open spec fn indices_grounded(state: State) -> bool {
    &&& forall|hash: Seq<u8>| #[trigger]
        state.hashes.contains_key(hash) ==> state.commits.contains_key(state.hashes[hash])
    &&& forall|hash: Seq<u8>| #[trigger]
        state.digests.contains_key(hash) ==> state.commits.contains_key(state.digests[hash])
}

/// The records, the histories and the indices of the registry agree.
pub open spec fn consistent(state: State) -> bool {
    &&& records_indexed(state)
    &&& histories_kept(state)
    &&& indices_grounded(state)
}

/// The empty registry is consistent.
pub proof fn lemma_empty_is_consistent()
    ensures
        consistent(empty_state()),
{
}

/// A well-shaped history that no removal has ended stays well shaped with
/// one more entry of the kind `Update`, `Status` or `Remove`.
proof fn lemma_extended_history(entries: Seq<StreamCommit>, entry: StreamCommit)
    requires
        well_shaped(entries),
        entries.last().commit != StreamCommitOf::Remove,
        entry.commit != StreamCommitOf::Genesis,
        entry.commit != StreamCommitOf::Digest,
    ensures
        well_shaped(entries.push(entry)),
{
    let longer = entries.push(entry);
    assert forall|i: int| 0 <= i < longer.len() - 1 implies (#[trigger] longer[i]).commit
        != StreamCommitOf::Remove by {
        if i < entries.len() - 1 {
            assert(longer[i] == entries[i]);
        } else {
            assert(longer[i] == entries.last());
        }
    }
    assert forall|i: int| 0 < i < longer.len() implies (#[trigger] longer[i]).commit
        != StreamCommitOf::Genesis by {
        if i < entries.len() {
            assert(longer[i] == entries[i]);
        }
    }
    assert forall|i: int| 0 <= i < longer.len() implies (#[trigger] longer[i]).commit
        != StreamCommitOf::Digest by {
        if i < entries.len() {
            assert(longer[i] == entries[i]);
        }
    }
    assert(longer[0] == entries[0]);
}

/// No call makes a consistent registry inconsistent.
pub proof fn lemma_step_keeps_consistency(state: State, call: Call)
    requires
        consistent(state),
    ensures
        consistent(step(state, call)),
{
    let after = step(state, call);
    if failure(state, call) is None {
        match call {
            Call::Create { stream_hash, now, .. } => {
                let anchored = stream_identifier(stream_hash);
                lemma_derived_is_identifier(stream_hash@, STREAM_IDENTIFIER_PREFIX);
                lemma_content_recovered(stream_hash@, STREAM_IDENTIFIER_PREFIX);
                assert(!state.commits.contains_key(anchored));
                assert(history(state, anchored) =~= Seq::<StreamCommit>::empty());
                let entry = StreamCommit { block: now, commit: StreamCommitOf::Genesis };
                assert(after.commits[anchored] =~= seq![entry]);
                assert(well_shaped(after.commits[anchored]));
                assert(records_indexed(after)) by {
                    assert forall|identifier: Seq<u8>| #[trigger]
                        after.streams.contains_key(identifier) implies {
                        &&& after.commits.contains_key(identifier)
                        &&& after.commits[identifier].last().commit != StreamCommitOf::Remove
                        &&& after.hashes.contains_key(after.streams[identifier].stream_hash@)
                        &&& after.hashes[after.streams[identifier].stream_hash@] == identifier
                    } by {
                        if identifier != anchored {
                            assert(state.streams.contains_key(identifier));
                        }
                    }
                }
                assert(histories_kept(after)) by {
                    assert forall|identifier: Seq<u8>| #[trigger]
                        after.commits.contains_key(identifier) implies {
                        &&& is_identifier(identifier, STREAM_IDENTIFIER_PREFIX)
                        &&& identifier.len() == STREAM_IDENTIFIER_LENGTH
                        &&& well_shaped(after.commits[identifier])
                        &&& after.hashes.contains_key(content_of(identifier))
                        &&& after.hashes[content_of(identifier)] == identifier
                        &&& after.commits[identifier].last().commit != StreamCommitOf::Remove
                            ==> after.streams.contains_key(identifier)
                    } by {
                        if identifier != anchored {
                            assert(state.commits.contains_key(identifier));
                        }
                    }
                }
                assert(indices_grounded(after)) by {
                    assert forall|hash: Seq<u8>| #[trigger]
                        after.hashes.contains_key(hash) implies after.commits.contains_key(
                        after.hashes[hash],
                    ) by {
                        if hash != stream_hash@ {
                            assert(state.hashes.contains_key(hash));
                        }
                    }
                    assert forall|hash: Seq<u8>| #[trigger]
                        after.digests.contains_key(hash) implies after.commits.contains_key(
                        after.digests[hash],
                    ) by {
                        assert(state.digests.contains_key(hash));
                    }
                }
            },
            Call::Update { identifier: changed, stream_hash, now, .. } => {
                assert(state.streams.contains_key(changed));
                let entry = StreamCommit { block: now, commit: StreamCommitOf::Update };
                lemma_extended_history(state.commits[changed], entry);
                assert(after.commits.dom() =~= state.commits.dom());
                assert(after.streams.dom() =~= state.streams.dom());
                lemma_records_follow(state, after, changed, Some(stream_hash@), None);
            },
            Call::Status { identifier: changed, now, .. } => {
                assert(state.streams.contains_key(changed));
                let entry = StreamCommit { block: now, commit: StreamCommitOf::Status };
                lemma_extended_history(state.commits[changed], entry);
                assert(after.commits.dom() =~= state.commits.dom());
                assert(after.streams.dom() =~= state.streams.dom());
                lemma_records_follow(state, after, changed, None, None);
            },
            Call::Remove { identifier: changed, now, .. } => {
                assert(state.streams.contains_key(changed));
                let entry = StreamCommit { block: now, commit: StreamCommitOf::Remove };
                lemma_extended_history(state.commits[changed], entry);
                assert(after.commits.dom() =~= state.commits.dom());
                lemma_records_follow(state, after, changed, None, None);
            },
            Call::Digest { identifier: changed, digest_hash, .. } => {
                assert(state.streams.contains_key(changed));
                lemma_records_follow(state, after, changed, None, Some(digest_hash@));
            },
        }
    }
}

/// The consistency of a registry after a change to one stream follows from
/// its consistency before, where the stream's history stays well shaped, the
/// record is there exactly while no removal has ended the history, and what
/// is new in the indices leads to the stream.
proof fn lemma_records_follow(
    state: State,
    after: State,
    changed: Seq<u8>,
    anchored: Option<Seq<u8>>,
    attached: Option<Seq<u8>>,
)
    requires
        consistent(state),
        state.streams.contains_key(changed),
        after.commits.contains_key(changed),
        well_shaped(after.commits[changed]),
        after.commits.dom() == state.commits.dom(),
        forall|identifier: Seq<u8>|
            identifier != changed && #[trigger] state.commits.contains_key(identifier)
                ==> after.commits[identifier] == state.commits[identifier],
        after.streams.dom() == if after.commits[changed].last().commit == StreamCommitOf::Remove {
            state.streams.dom().remove(changed)
        } else {
            state.streams.dom()
        },
        forall|identifier: Seq<u8>|
            identifier != changed && #[trigger] state.streams.contains_key(identifier)
                ==> after.streams[identifier] == state.streams[identifier],
        after.hashes == match anchored {
            Some(hash) => state.hashes.insert(hash, changed),
            None => state.hashes,
        },
        anchored matches Some(hash) ==> !state.hashes.contains_key(hash)
            && after.streams.contains_key(changed) && after.streams[changed].stream_hash@ == hash,
        anchored is None && after.streams.contains_key(changed) ==> after.streams[changed].stream_hash
            == state.streams[changed].stream_hash,
        after.digests == match attached {
            Some(hash) => state.digests.insert(hash, changed),
            None => state.digests,
        },
    ensures
        consistent(after),
{
    assert(records_indexed(after)) by {
        assert forall|identifier: Seq<u8>| #[trigger]
            after.streams.contains_key(identifier) implies {
            &&& after.commits.contains_key(identifier)
            &&& after.commits[identifier].last().commit != StreamCommitOf::Remove
            &&& after.hashes.contains_key(after.streams[identifier].stream_hash@)
            &&& after.hashes[after.streams[identifier].stream_hash@] == identifier
        } by {
            assert(state.streams.dom().contains(identifier));
            assert(state.streams.contains_key(identifier));
            assert(state.commits.dom().contains(identifier));
        }
    }
    assert(histories_kept(after)) by {
        assert forall|identifier: Seq<u8>| #[trigger]
            after.commits.contains_key(identifier) implies {
            &&& is_identifier(identifier, STREAM_IDENTIFIER_PREFIX)
            &&& identifier.len() == STREAM_IDENTIFIER_LENGTH
            &&& well_shaped(after.commits[identifier])
            &&& after.hashes.contains_key(content_of(identifier))
            &&& after.hashes[content_of(identifier)] == identifier
            &&& after.commits[identifier].last().commit != StreamCommitOf::Remove
                ==> after.streams.contains_key(identifier)
        } by {
            assert(state.commits.dom().contains(identifier));
            assert(state.commits.contains_key(identifier));
            if identifier != changed && state.commits[identifier].last().commit
                != StreamCommitOf::Remove {
                assert(state.streams.contains_key(identifier));
                assert(after.streams.dom().contains(identifier));
            }
            if identifier == changed && after.commits[identifier].last().commit
                != StreamCommitOf::Remove {
                assert(after.streams.dom().contains(identifier));
            }
        }
    }
    assert(indices_grounded(after)) by {
        assert forall|hash: Seq<u8>| #[trigger] after.hashes.contains_key(hash) implies after.commits.contains_key(
            after.hashes[hash],
        ) by {
            if anchored != Some(hash) {
                assert(state.hashes.contains_key(hash));
                assert(state.commits.dom().contains(state.hashes[hash]));
            }
        }
        assert forall|hash: Seq<u8>| #[trigger] after.digests.contains_key(hash) implies after.commits.contains_key(
            after.digests[hash],
        ) by {
            if attached != Some(hash) {
                assert(state.digests.contains_key(hash));
                assert(state.commits.dom().contains(state.digests[hash]));
            }
        }
    }
}

} // verus!
