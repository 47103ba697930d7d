//! The failures that building, encoding and signing can report.

use vstd::prelude::*;

verus! {

/// Why an operation of this library failed.
#[derive(Clone, Copy, Debug, PartialEq, Eq, Structural)]
pub enum Error {
    /// A hexadecimal text (an address, a block id, a key) is malformed.
    DecodeError,
    /// The key material is not a usable private key, or signing failed.
    CryptoError,
    /// A value cannot be represented in the type that was asked for.
    InvalidArgument,
    /// A field is longer than the fixed width it is encoded in, or an item is
    /// too long for its length prefix.
    EncodingOverflow,
}

} // verus!
