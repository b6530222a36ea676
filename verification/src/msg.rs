//! The requests that the ledger takes and the answers that it gives.

use crate::intelstructs::{ClaimStruct, IASReport};
use crate::state::{DonationInfo, RewardInfo};
use crate::uint256::U256;
use vstd::prelude::*;

verus! {

/// What a ledger is set up with.
#[derive(Clone, Debug, PartialEq, Eq)]
pub struct InstantiateMsg {
    /// The number of reward units that the pot is divided into.
    pub total_reward_shares: U256,
}

/// A request that changes the ledger.
#[derive(Clone, Debug, PartialEq, Eq)]
pub enum ExecuteMsg {
    /// For claimants to grab their reward from the pot.
    ClaimGEID {
        /// The report that the attestation service made for an enclave. The
        /// claim is bound into its quote.
        report: IASReport,
        /// The claim that is held against the report.
        to_claim: ClaimStruct,
    },
    /// For a donor to add money to the pot to claim from.
    DonateToPot {  },
}

/// A request that reads the ledger, one page at a time.
#[derive(Clone, Copy, Debug, PartialEq, Eq)]
pub enum QueryMsg {
    FetchDonors {
        /// The page we wish to paginate from.
        page: u64,
        /// The size of the page we're paginating by.
        page_size: u64,
    },
    FetchClaimants {
        /// The page we wish to paginate from.
        page: u64,
        /// The size of the page we're paginating by.
        page_size: u64,
    },
    FetchSeenGuids {
        /// The page we wish to paginate from.
        page: u64,
        /// The size of the page we're paginating by.
        page_size: u64,
    },
}

/// A page of donors, each with what the donor has given.
#[derive(Clone, Debug, PartialEq, Eq)]
pub struct FetchDonorsResponse {
    pub donors: Vec<(Vec<u8>, DonationInfo)>,
}

/// A page of claimants, each with what the claimant holds.
#[derive(Clone, Debug, PartialEq, Eq)]
pub struct FetchRewardedResponse {
    pub rewarded: Vec<(Vec<u8>, RewardInfo)>,
}

/// A page of hardware group identifiers that are used up.
#[derive(Clone, Debug, PartialEq, Eq)]
pub struct FetchSeenGroupIds {
    pub rewarded: Vec<u32>,
}

/// The answer to a query.
#[derive(Clone, Debug, PartialEq, Eq)]
pub enum QueryResponse {
    Donors(FetchDonorsResponse),
    Claimants(FetchRewardedResponse),
    SeenGuids(FetchSeenGroupIds),
}

} // verus!
