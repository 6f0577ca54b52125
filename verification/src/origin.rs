//! Who asks for an operation, and the two gates an origin can pass.

use vstd::prelude::*;
use crate::error::Error;
use crate::primitives::AccountId;

verus! {

/// The capability with which a call arrives, as the ledger established it.
#[derive(Clone, Copy, Debug, PartialEq, Eq)]
pub enum Origin {
    /// An authenticated participant, with the account that sent the call.
    Participant(AccountId),
    /// The privileged origin that may remove streams.
    Force,
    /// An origin with neither capability.
    Unauthenticated,
}

/// The account behind an origin that may anchor and change streams.
pub open spec fn participant_of(origin: Origin) -> Result<AccountId, Error> {
    match origin {
        Origin::Participant(who) => Ok(who),
        _ => Err(Error::UnauthorizedOperation),
    }
}

/// Whether an origin may remove streams.
pub open spec fn force_of(origin: Origin) -> Result<(), Error> {
    match origin {
        Origin::Force => Ok(()),
        _ => Err(Error::UnauthorizedOperation),
    }
}

/// Lets authenticated participants pass, and gives the account that sent the
/// call.
pub fn ensure_participant(origin: &Origin) -> (result: Result<AccountId, Error>)
    ensures
        result == participant_of(*origin),
{
    match origin {
        Origin::Participant(who) => Ok(*who),
        _ => Err(Error::UnauthorizedOperation),
    }
}

/// Lets the privileged origin pass.
pub fn ensure_force(origin: &Origin) -> (result: Result<(), Error>)
    ensures
        result == force_of(*origin),
{
    match origin {
        Origin::Force => Ok(()),
        _ => Err(Error::UnauthorizedOperation),
    }
}

} // verus!
