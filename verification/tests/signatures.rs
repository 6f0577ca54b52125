use pallet_stream::{
    create_identifier, ensure_force, ensure_participant, AccountId, Error, Event, Hash256, Origin,
    Pallet, Signature, STREAM_IDENTIFIER_PREFIX,
};
use sp_core::Pair;
use sp_runtime::traits::IdentifyAccount;

fn anchor(account: AccountId, hash: Hash256, signature: Signature) -> Result<Event, Error> {
    let mut pallet = Pallet::new();
    pallet.create(Origin::Participant(account), account, hash, None, None, None, signature, Ok(()), 1)
}

fn anchored(account: AccountId, hash: Hash256) -> Result<Event, Error> {
    Ok(Event::Anchor(hash, create_identifier(&hash, STREAM_IDENTIFIER_PREFIX), account))
}

#[test]
fn sr25519_signature_of_the_creator_is_accepted() {
    let pair = sp_core::sr25519::Pair::from_seed(&[1u8; 32]);
    let account: AccountId = pair.public().0;
    let hash: Hash256 = [0x42; 32];
    let signature = pair.sign(&hash).0;
    assert_eq!(anchor(account, hash, Signature::Sr25519(signature)), anchored(account, hash));
}

#[test]
fn sr25519_signature_is_refused_under_another_scheme() {
    let pair = sp_core::sr25519::Pair::from_seed(&[1u8; 32]);
    let account: AccountId = pair.public().0;
    let hash: Hash256 = [0x42; 32];
    let signature = pair.sign(&hash).0;
    assert_eq!(anchor(account, hash, Signature::Ed25519(signature)), Err(Error::InvalidSignature));
}

#[test]
fn sr25519_signature_with_a_changed_byte_is_refused() {
    let pair = sp_core::sr25519::Pair::from_seed(&[1u8; 32]);
    let account: AccountId = pair.public().0;
    let hash: Hash256 = [0x42; 32];
    let mut signature = pair.sign(&hash).0;
    signature[5] ^= 1;
    assert_eq!(anchor(account, hash, Signature::Sr25519(signature)), Err(Error::InvalidSignature));
}

#[test]
fn ed25519_signature_of_the_creator_is_accepted() {
    let pair = sp_core::ed25519::Pair::from_seed(&[2u8; 32]);
    let account: AccountId = pair.public().0;
    let hash: Hash256 = [0x43; 32];
    let signature = pair.sign(&hash).0;
    assert_eq!(anchor(account, hash, Signature::Ed25519(signature)), anchored(account, hash));
}

#[test]
fn ed25519_signature_over_another_hash_is_refused() {
    let pair = sp_core::ed25519::Pair::from_seed(&[2u8; 32]);
    let account: AccountId = pair.public().0;
    let signature = pair.sign(&[0x44; 32]).0;
    assert_eq!(
        anchor(account, [0x43; 32], Signature::Ed25519(signature)),
        Err(Error::InvalidSignature)
    );
}

#[test]
fn ecdsa_signature_of_the_creator_is_accepted() {
    let pair = sp_core::ecdsa::Pair::from_seed(&[3u8; 32]);
    let account: AccountId = sp_runtime::MultiSigner::Ecdsa(pair.public()).into_account().into();
    let hash: Hash256 = [0x45; 32];
    let signature = pair.sign(&hash).0;
    assert_eq!(anchor(account, hash, Signature::Ecdsa(signature)), anchored(account, hash));
}

#[test]
fn ecdsa_signature_of_someone_else_is_refused() {
    let pair = sp_core::ecdsa::Pair::from_seed(&[3u8; 32]);
    let other = sp_core::ecdsa::Pair::from_seed(&[4u8; 32]);
    let account: AccountId = sp_runtime::MultiSigner::Ecdsa(pair.public()).into_account().into();
    let hash: Hash256 = [0x45; 32];
    let signature = other.sign(&hash).0;
    assert_eq!(anchor(account, hash, Signature::Ecdsa(signature)), Err(Error::InvalidSignature));
}

#[test]
fn eth_signature_of_the_creator_is_accepted() {
    let pair = sp_core::ecdsa::KeccakPair::from_seed(&[5u8; 32]);
    let account: AccountId = sp_runtime::MultiSigner::Eth(pair.public()).into_account().into();
    let hash: Hash256 = [0x46; 32];
    let signature = pair.sign(&hash).0;
    assert_eq!(anchor(account, hash, Signature::Eth(signature)), anchored(account, hash));
}

#[test]
fn eth_signature_is_refused_for_the_plain_ecdsa_account() {
    let pair = sp_core::ecdsa::KeccakPair::from_seed(&[5u8; 32]);
    let account: AccountId = sp_runtime::MultiSigner::Eth(pair.public()).into_account().into();
    let hash: Hash256 = [0x46; 32];
    let signature = pair.sign(&hash).0;
    assert_eq!(anchor(account, hash, Signature::Ecdsa(signature)), Err(Error::InvalidSignature));
}

#[test]
fn signature_of_zeroes_is_refused_in_every_scheme() {
    let account: AccountId = [7u8; 32];
    let hash: Hash256 = [0x47; 32];
    assert_eq!(anchor(account, hash, Signature::Ed25519([0u8; 64])), Err(Error::InvalidSignature));
    assert_eq!(anchor(account, hash, Signature::Sr25519([0u8; 64])), Err(Error::InvalidSignature));
    assert_eq!(anchor(account, hash, Signature::Ecdsa([0u8; 65])), Err(Error::InvalidSignature));
    assert_eq!(anchor(account, hash, Signature::Eth([0u8; 65])), Err(Error::InvalidSignature));
}

#[test]
fn status_is_signed_over_the_transaction_hash() {
    let pair = sp_core::sr25519::Pair::from_seed(&[1u8; 32]);
    let account: AccountId = pair.public().0;
    let hash: Hash256 = [0x42; 32];
    let id = create_identifier(&hash, STREAM_IDENTIFIER_PREFIX);
    let mut pallet = Pallet::new();
    let created = pallet.create(
        Origin::Participant(account),
        account,
        hash,
        None,
        None,
        None,
        Signature::Sr25519(pair.sign(&hash).0),
        Ok(()),
        1,
    );
    assert_eq!(created, anchored(account, hash));
    let tx: Hash256 = [0x99; 32];
    let over_content = pallet.status(
        Origin::Participant(account),
        id.clone(),
        account,
        true,
        tx,
        Signature::Sr25519(pair.sign(&hash).0),
        Ok(()),
        2,
    );
    assert_eq!(over_content, Err(Error::InvalidSignature));
    let over_tx = pallet.status(
        Origin::Participant(account),
        id.clone(),
        account,
        true,
        tx,
        Signature::Sr25519(pair.sign(&tx).0),
        Ok(()),
        2,
    );
    assert_eq!(over_tx, Ok(Event::Status(id, account)));
}

#[test]
fn participant_passes_the_first_gate_only() {
    let account: AccountId = [7u8; 32];
    assert_eq!(ensure_participant(&Origin::Participant(account)), Ok(account));
    assert_eq!(ensure_force(&Origin::Participant(account)), Err(Error::UnauthorizedOperation));
}

#[test]
fn privileged_origin_passes_the_second_gate_only() {
    assert_eq!(ensure_force(&Origin::Force), Ok(()));
    assert_eq!(ensure_participant(&Origin::Force), Err(Error::UnauthorizedOperation));
}

#[test]
fn unauthenticated_origin_passes_no_gate() {
    assert_eq!(ensure_participant(&Origin::Unauthenticated), Err(Error::UnauthorizedOperation));
    assert_eq!(ensure_force(&Origin::Unauthenticated), Err(Error::UnauthorizedOperation));
}
