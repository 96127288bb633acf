//! Ethereum transaction encoding, delegated-ECDSA signing helpers, and a
//! size- and budget-constrained JSON-RPC HTTP transport, for a metered host
//! environment whose keys are held by an external threshold signer.

pub mod crypto;
pub mod decode;
pub mod http;
pub mod ic;
pub mod rlp;
pub mod tx;

use vstd::prelude::*;

verus! {

/// Failures of transaction encoding and request construction. Fatal,
/// never retried.
#[derive(Debug, Clone, PartialEq, Eq)]
pub enum EncodingError {
    /// `transaction_type` was present but none of the supported kinds.
    UnsupportedTransactionType,
    /// A required field of a transaction request was absent.
    MissingField,
}

/// Failures of the delegated-signing path. Surfaced verbatim, never
/// retried automatically.
#[derive(Debug, Clone, PartialEq, Eq)]
pub enum SignerError {
    /// The signer's response was not a 64-byte `r||s` signature.
    MalformedSignature,
    /// Neither candidate recovery parity reproduces the signer's address:
    /// treated as data corruption, the operation aborts rather than guess.
    RecoveryMismatch,
    /// The signing channel rejected or failed the call; the message is
    /// surfaced verbatim.
    Rejected(String),
    /// The transaction could not be re-encoded with the signature.
    Encoding(EncodingError),
}

/// Failures of the outcall transport. Surfaced with the channel's
/// classification; never retried.
#[derive(Debug, Clone, PartialEq, Eq)]
pub enum TransportError {
    /// The response exceeded `max_response_bytes`; it is rejected, never
    /// truncated silently.
    ResponseTooLarge { limit: u64, actual: u64 },
    /// The channel rejected the call; classification and message are
    /// surfaced verbatim.
    Rejected { code: u64, message: String },
}

/// A call rejected before any outbound request, for want of funding.
#[derive(Debug, Clone, PartialEq, Eq)]
pub enum BudgetError {
    Insufficient { required: u128, available: u128 },
}

} // verus!
