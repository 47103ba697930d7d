//! Construction, canonical encoding and signing of Flow transactions.
//!
//! A transaction is built once from a script, its arguments and the accounts
//! involved, then signed in two tiers: payload signers sign the transaction
//! body, envelope signers sign the body together with every payload
//! signature. Every byte that is signed is fixed by a specification function,
//! and the executable code is proved to produce exactly those bytes.
//!
//! Two formats live side by side and never mix. Script arguments are JSON
//! records ([`argument`]); a transaction carries them as opaque byte strings.
//! What is signed is the canonical, length-prefixed encoding of nested lists
//! ([`canonical`]).

pub mod account;
pub mod argument;
pub mod canonical;
pub mod client;
pub mod decoding;
pub mod error;
pub mod hexstr;
pub mod json;
pub mod laws;
pub mod padding;
pub mod signing;
pub mod transaction;

pub use account::process_keys_args;
pub use argument::Argument;
pub use error::Error;
pub use padding::pad;
pub use signing::{sign_transaction, Sign};
pub use transaction::{
    build_transaction, Transaction, TransactionProposalKey, TransactionSignature,
};
