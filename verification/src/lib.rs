//! A registry that anchors content-addressed streams and keeps, for every
//! identifier, an append-only history of the operations accepted on it.
//!
//! A stream is a piece of data kept elsewhere; the registry knows only the
//! hash of its content. [`Pallet`] holds the records, the histories and the
//! two indices of hashes, and offers the five operations on them. The module
//! [`model`] says what each operation does, and [`laws`] what follows.

pub mod consistency;
pub mod error;
pub mod event;
pub mod identifier;
pub mod laws;
pub mod model;
pub mod origin;
pub mod pallet;
pub mod primitives;
pub mod signature;
pub mod store;
pub mod streams;

pub use crate::error::{Error, SchemaError};
pub use crate::event::Event;
pub use crate::identifier::{create_identifier, is_valid_identifier, IdentifierError};
pub use crate::origin::{ensure_force, ensure_participant, Origin};
pub use crate::pallet::Pallet;
pub use crate::primitives::{
    AccountId, BlockNumber, Hash256, IdentifierOf, StatusOf, STREAM_IDENTIFIER_LENGTH,
    STREAM_IDENTIFIER_PREFIX,
};
pub use crate::signature::Signature;
pub use crate::streams::{StreamCommit, StreamCommitOf, StreamDetails};
