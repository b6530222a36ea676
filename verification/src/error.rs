//! The ways in which a request can fail.

use vstd::prelude::*;

verus! {

/// Why a request was turned down. Every failure is final for the request and
/// leaves the ledger as it was.
#[derive(Clone, Copy, Debug, PartialEq, Eq, Structural)]
pub enum ContractError {
    /// A blob has the wrong length or holds characters outside its alphabet.
    MalformedInput,
    /// The digest recovered from the report signature is not the digest of
    /// the report body.
    AttestationInvalid,
    /// The digest of the submitted claim is not the one the quote carries.
    ClaimMismatch,
    /// The hardware group identifier has already been used for a claim.
    ReplayedGroupId,
    /// The pot was configured with zero reward units.
    DivisionByZero,
    /// An amount left the range of 256-bit unsigned integers.
    ArithmeticOverflow,
}

} // verus!
