//! The protocol's error taxonomy.
use vstd::prelude::*;

verus! {

/// Why a lock or release was refused.  Every failure is an atomic rollback:
/// the ledger is left exactly as it was.
#[derive(Clone, Copy, Debug, PartialEq, Eq, Structural)]
pub enum EscrowError {
    /// Malformed request (empty listing key, zero amount, or a listing key
    /// that admits no custody derivation): the caller must fix the input.
    InvalidArgument,
    /// A live record already exists for the listing key.
    DuplicateEscrow,
    /// The record to release does not exist.
    NotFound,
    /// The buyer cannot cover the amount plus the storage deposit.
    InsufficientFunds,
    /// The caller is not the stored authority, or the declared seller or
    /// buyer differs from the stored one.
    Unauthorized,
    /// Crediting a destination would overflow its balance: fail closed,
    /// never wrap or saturate.
    ArithmeticOverflow,
    /// The underlying fund movement cannot proceed (a destination cannot
    /// receive funds, or the custody balance cannot cover the amount);
    /// retryable after external remediation.
    TransferFailed,
}

} // verus!
