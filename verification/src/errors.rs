//! Error taxonomy of the bridge client.
//!
//! Every fallible operation of the library reports one of these kinds;
//! none of the verified functions panics.

use vstd::prelude::*;

verus! {

/// The failure kinds a bridge operation can surface.
///
/// - `ConnectionError`: transport failure reaching the destination chain;
///   always retryable.
/// - `TransactionRejected`: a submitted transaction reverted or was
///   rejected before execution.
/// - `FailedToParseTransactionPayload`: the destination contract could not
///   decode the message payload.
/// - `InvalidProof`: a Merkle or finalization proof did not verify against
///   the expected root.
/// - `InvalidMessageArgument`: a well-formed but semantically invalid
///   message, such as a zero transfer amount.
/// - `NotEnoughBalance`: the relayer or the treasury lacks the funds the
///   operation needs.
/// - `InvalidAccountSequence`: an account nonce mismatch.
/// - `InvalidContractSequence`: the message's replay-protection sequence
///   does not equal the treasury's current counter; carries the expected
///   and the supplied value.
/// - `InvalidAddressFormat`: an address string or byte vector does not
///   decode to a fixed-width binary address.
/// - `InternalContractError`: unexpected contract-side failure, including
///   any numeric conversion that would lose precision.
/// - `NoSuchContract`: a required contract address is not configured.
/// - `Unknown`: escape hatch for unmapped failures.
#[derive(Clone, Copy, Debug, PartialEq, Eq, Structural)]
pub enum Error {
    ConnectionError,
    TransactionRejected,
    FailedToParseTransactionPayload,
    InvalidProof,
    InvalidMessageArgument,
    NotEnoughBalance,
    InvalidAccountSequence,
    InvalidContractSequence { expected: u64, got: u64 },
    InvalidAddressFormat,
    InternalContractError,
    NoSuchContract,
    Unknown,
}

impl Error {
    /// Whether a caller may retry the failed operation without first
    /// changing its inputs or resolving an external cause.
    ///
    /// Transport failures are always retryable; sequence mismatches are
    /// retryable after re-reading the current value; funding shortfalls
    /// are retryable after funding.  Everything else needs intervention.
    pub fn is_retryable(&self) -> (r: bool)
        ensures
            r == (self is ConnectionError || self is InvalidContractSequence
                || self is InvalidAccountSequence || self is NotEnoughBalance),
    {
        match self {
            Error::ConnectionError => true,
            Error::InvalidContractSequence { .. } => true,
            Error::InvalidAccountSequence => true,
            Error::NotEnoughBalance => true,
            _ => false,
        }
    }

    /// A short stable name for the error kind, for logs and messages.
    pub fn kind_name(&self) -> (r: &'static str)
        ensures
            self is ConnectionError ==> r@ == "ConnectionError"@,
            self is TransactionRejected ==> r@ == "TransactionRejected"@,
            self is FailedToParseTransactionPayload ==> r@ == "FailedToParseTransactionPayload"@,
            self is InvalidProof ==> r@ == "InvalidProof"@,
            self is InvalidMessageArgument ==> r@ == "InvalidMessageArgument"@,
            self is NotEnoughBalance ==> r@ == "NotEnoughBalance"@,
            self is InvalidAccountSequence ==> r@ == "InvalidAccountSequence"@,
            self is InvalidContractSequence ==> r@ == "InvalidContractSequence"@,
            self is InvalidAddressFormat ==> r@ == "InvalidAddressFormat"@,
            self is InternalContractError ==> r@ == "InternalContractError"@,
            self is NoSuchContract ==> r@ == "NoSuchContract"@,
            self is Unknown ==> r@ == "Unknown"@,
    {
        match self {
            Error::ConnectionError => "ConnectionError",
            Error::TransactionRejected => "TransactionRejected",
            Error::FailedToParseTransactionPayload => "FailedToParseTransactionPayload",
            Error::InvalidProof => "InvalidProof",
            Error::InvalidMessageArgument => "InvalidMessageArgument",
            Error::NotEnoughBalance => "NotEnoughBalance",
            Error::InvalidAccountSequence => "InvalidAccountSequence",
            Error::InvalidContractSequence { .. } => "InvalidContractSequence",
            Error::InvalidAddressFormat => "InvalidAddressFormat",
            Error::InternalContractError => "InternalContractError",
            Error::NoSuchContract => "NoSuchContract",
            Error::Unknown => "Unknown",
        }
    }
}

} // verus!
