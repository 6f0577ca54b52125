//! Signatures, and the check that one was made by an account.

use vstd::prelude::*;
use crate::primitives::{AccountId, Hash256};

verus! {

/// A signature in one of the schemes that the ledger accepts, as its raw
/// bytes.
#[derive(Clone, Copy, Debug, PartialEq, Eq)]
pub enum Signature {
    /// An Ed25519 signature.
    Ed25519([u8; 64]),
    /// An Sr25519 signature.
    Sr25519([u8; 64]),
    /// An ECDSA signature over secp256k1, with its recovery byte. The
    /// signer's account is the Blake2 hash of the public key.
    Ecdsa([u8; 65]),
    /// An ECDSA signature over secp256k1, with its recovery byte. The
    /// signer's account is made from the Ethereum address of the public key.
    Eth([u8; 65]),
}

/// Whether `sp_runtime::MultiSignature::verify` accepts `signature` as made
/// over `message` by the account `signer`.
pub uninterp spec fn signature_verifies(
    signature: Signature,
    message: Seq<u8>,
    signer: AccountId,
) -> bool;

/// What is known of the answer `valid` that the signature check gave for
/// `signature`, `message` and `signer`.
///
/// For the Sr25519 scheme and the two ECDSA schemes the answer is
/// `signature_verifies` of the three values. The Ed25519 check chooses
/// between two implementations by what the externalities of its thread
/// hold, so nothing is said of its answer.
pub open spec fn signature_answer(
    signature: Signature,
    message: Seq<u8>,
    signer: AccountId,
    valid: bool,
) -> bool {
    signature is Ed25519 || valid == signature_verifies(signature, message, signer)
}

/// Checks a signature over a hash with
/// `<sp_runtime::MultiSignature as sp_runtime::traits::Verify>::verify`. The
/// message handed to it is the thirty-two bytes of `message`, the signer the
/// account with the bytes of `signer`.
///
/// Taken on trust: that for the Sr25519 scheme and the two ECDSA schemes the
/// answer depends on the signature, the message and the signer alone. Of an
/// Ed25519 signature nothing is claimed.
#[verifier::external_body]
pub(crate) fn verify_signature(signature: &Signature, message: &Hash256, signer: &AccountId) -> (valid:
    bool)
    ensures
        *signature is Ed25519 || valid == signature_verifies(*signature, message@, *signer),
{
    let outside = match *signature {
        Signature::Ed25519(raw) => sp_runtime::MultiSignature::Ed25519(raw.into()),
        Signature::Sr25519(raw) => sp_runtime::MultiSignature::Sr25519(raw.into()),
        Signature::Ecdsa(raw) => sp_runtime::MultiSignature::Ecdsa(raw.into()),
        Signature::Eth(raw) => sp_runtime::MultiSignature::Eth(raw.into()),
    };
    sp_runtime::traits::Verify::verify(&outside, &message[..], &sp_runtime::AccountId32::new(*signer))
}

} // verus!
