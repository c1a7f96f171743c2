use vstd::prelude::*;

verus! {

/// Errors surfaced by the oracle protocol's operations.
///
/// The taxonomy mirrors the protocol's failure modes: allocation failures
/// (`AddressInUse`, `InsufficientFunds`), lookup failures (`AccountNotFound`),
/// deliberate security rejections (`InvalidAccount`), and a failure to encode
/// the response payload (`SerializationFailed`).
#[derive(Clone, Copy, Debug, PartialEq, Eq, Structural)]
pub enum OracleError {
    /// An account address that an operation must create is already occupied.
    AddressInUse,
    /// The funder cannot cover the storage deposit for the accounts being created.
    InsufficientFunds,
    /// A required account does not exist at its derived address.
    AccountNotFound,
    /// A deliberate security rejection: a required signature is missing, or a
    /// forbidden account appears in the trailing-accounts list.
    InvalidAccount,
    /// The response payload could not be serialized (its byte length does not
    /// fit in the 4-byte length prefix).
    SerializationFailed,
}

} // verus!
