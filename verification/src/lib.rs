//! Verification of hardware attestation evidence and the one-time reward
//! claims that such evidence unlocks from a shared donation pot.
//!
//! A claim comes with an attestation report. The report names the platform
//! that ran the enclave and carries a quote in which the enclave has bound
//! the digest of the claim. A claim is paid once per hardware group
//! identifier:
//!
//! - [`platforminfoblob`] decodes the platform info blob and the quote body
//!   of a report;
//! - [`intelstructs`] holds the report and the claim, writes the forms of
//!   them that are hashed, and recovers the digest from a report signature;
//! - [`state`] is the ledger: the pot, the donors, the claimants and the
//!   group identifiers that are used up;
//! - [`contract`] judges a claim against its report and pays it, and lists
//!   what the ledger holds;
//! - [`msg`] holds the requests and the answers.
//!
//! The other modules serve these: numbers in bytes ([`bigendian`],
//! [`uint256`]), text forms ([`canonical`], [`hexcode`], [`base64text`]),
//! digests ([`hash`]), keyed records ([`table`]) and errors ([`error`]).

pub mod base64text;
pub mod bigendian;
pub mod canonical;
pub mod contract;
pub mod error;
pub mod hash;
pub mod hexcode;
pub mod intelstructs;
pub mod msg;
pub mod platforminfoblob;
pub mod state;
pub mod table;
pub mod uint256;

pub use crate::error::ContractError;
