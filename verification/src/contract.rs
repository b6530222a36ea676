//! The operations of the ledger: setting it up, taking a donation, judging
//! a claim against its attestation report and paying it, and listing what
//! the ledger holds.

use crate::base64text::{base64_decoded, decode_base64};
use crate::bigendian::{be_value, bytes_eq, is_zero_be};
use crate::error::ContractError;
use crate::hash::{sha256, sha256_digest};
use crate::hexcode::{hex_decoded, is_hex_text};
use crate::intelstructs::{
    recover_signature_digest, recovered_digest, ClaimStruct, IASReport, INTEL_ROOT_EXPONENT,
    INTEL_ROOT_MODULUS,
};
use crate::msg::{
    FetchDonorsResponse, FetchRewardedResponse, FetchSeenGroupIds, InstantiateMsg, QueryMsg,
    QueryResponse,
};
use crate::platforminfoblob::{
    convert_claim_struct_to_payload, convert_platform_info_hex, get_payload_from_quote_body,
    input_ok, payload_hash, without_header, QUOTE_BODY_LENGTH,
};
use crate::state::{
    claim_recorded, distinct_group_ids, group_ids, is_seen, payout, shares_held, LedgerStore,
    RewardPot,
};
use crate::table::{lookup, page_end, page_start, pairs_of};
use crate::uint256::{agrees, u256_limit, U256};
use vstd::prelude::*;
use vstd::slice::slice_to_vec;
use vstd::utf8::encode_utf8;

verus! {

/// Holds the digest of a claim against a quote body: the quote body must be
/// 432 bytes long, and the digest that its payload starts with must be the
/// digest of the claim, byte for byte.
pub fn check_claim_against_quote(quote_body: &[u8], claim_digest: &[u8]) -> (result: Result<
    (),
    ContractError,
>)
    ensures
        result is Ok <==> quote_body@.len() == QUOTE_BODY_LENGTH && claim_digest@ == payload_hash(
            quote_body@,
        ),
        quote_body@.len() != QUOTE_BODY_LENGTH ==> result == Err::<(), ContractError>(
            ContractError::MalformedInput,
        ),
        quote_body@.len() == QUOTE_BODY_LENGTH && claim_digest@ != payload_hash(quote_body@)
            ==> result == Err::<(), ContractError>(ContractError::ClaimMismatch),
{
    let payload: Vec<u8> = match get_payload_from_quote_body(quote_body) {
        Ok(payload) => payload,
        Err(e) => {
            return Err(e);
        },
    };
    if bytes_eq(claim_digest, payload.as_slice()) {
        Ok(())
    } else {
        Err(ContractError::ClaimMismatch)
    }
}

/// Holds the digest recovered from a report's signature against the digest
/// of the report's body: they must be the same, byte for byte.
pub fn check_signature_digest(recovered: &[u8], expected: &[u8]) -> (result: Result<
    (),
    ContractError,
>)
    ensures
        result is Ok <==> recovered@ == expected@,
        result matches Err(e) ==> e == ContractError::AttestationInvalid,
{
    if bytes_eq(recovered, expected) {
        Ok(())
    } else {
        Err(ContractError::AttestationInvalid)
    }
}

/// The hardware group identifier that a platform info blob in hexadecimal
/// names: the number that bytes 33 to 36 of its fields spell, most
/// significant byte first.
pub open spec fn group_id_of(platform_info_hex: Seq<char>) -> u32 {
    be_value(
        without_header(hex_decoded(encode_utf8(platform_info_hex))).subrange(33, 37),
    ) as u32
}

/// How a claim fares against its report under a public key. The checks are
/// made in this order, and the first that fails decides:
///
/// 1. the platform info blob must decode, else `MalformedInput`;
/// 2. the quote body must be base64 for 432 bytes, else `MalformedInput`;
/// 3. the digest in the quote body must be the digest of the claim's
///    canonical form, else `ClaimMismatch`;
/// 4. the signature must be base64, else `MalformedInput`; the key's modulus
///    must not be zero, and the digest recovered from the signature must be
///    the digest of the report body as the service words it, else
///    `AttestationInvalid`.
///
/// A claim that passes them all yields the hardware group identifier of the
/// platform.
pub open spec fn evidence_outcome(
    report: IASReport,
    claim: ClaimStruct,
    exponent: Seq<u8>,
    modulus: Seq<u8>,
) -> Result<u32, ContractError> {
    let platform_info = report.report.platform_info_blob@;
    let quote_body = base64_decoded(report.report.isv_enclave_quote_body@);
    let signature = base64_decoded(report.report_sig@);
    if !(input_ok(platform_info) && is_hex_text(encode_utf8(platform_info))) {
        Err(ContractError::MalformedInput)
    } else if quote_body is None || quote_body.unwrap().len() != QUOTE_BODY_LENGTH {
        Err(ContractError::MalformedInput)
    } else if sha256_digest(claim.canonical_bytes()) != payload_hash(quote_body.unwrap()) {
        Err(ContractError::ClaimMismatch)
    } else if signature is None {
        Err(ContractError::MalformedInput)
    } else if be_value(modulus) == 0 || recovered_digest(signature.unwrap(), exponent, modulus)
        != sha256_digest(report.report.wire_bytes()) {
        Err(ContractError::AttestationInvalid)
    } else {
        Ok(group_id_of(platform_info))
    }
}

/// Judges a claim against its attestation report under the public key with
/// the given exponent and modulus, and returns the hardware group identifier
/// of the platform that the report speaks of.
pub fn verify_attestation_with_key(
    report: &IASReport,
    to_claim: ClaimStruct,
    exponent: &[u8],
    modulus: &[u8],
) -> (result: Result<u32, ContractError>)
    ensures
        result == evidence_outcome(*report, to_claim, exponent@, modulus@),
{
    let pib = match convert_platform_info_hex(report.report.platform_info_blob.as_str()) {
        Ok(pib) => pib,
        Err(e) => {
            return Err(e);
        },
    };
    let quote_body: Vec<u8> = match decode_base64(report.report.isv_enclave_quote_body.as_str()) {
        Ok(bytes) => bytes,
        Err(e) => {
            return Err(e);
        },
    };
    let claim_digest: Vec<u8> = convert_claim_struct_to_payload(to_claim);
    match check_claim_against_quote(quote_body.as_slice(), claim_digest.as_slice()) {
        Ok(_) => {},
        Err(e) => {
            return Err(e);
        },
    }
    let signature: Vec<u8> = match decode_base64(report.report_sig.as_str()) {
        Ok(bytes) => bytes,
        Err(e) => {
            return Err(e);
        },
    };
    if is_zero_be(modulus) {
        return Err(ContractError::AttestationInvalid);
    }
    let recovered: Vec<u8> = recover_signature_digest(signature.as_slice(), exponent, modulus);
    let body: Vec<u8> = report.report.to_wire_bytes();
    let expected: Vec<u8> = sha256(body.as_slice());
    match check_signature_digest(recovered.as_slice(), expected.as_slice()) {
        Ok(_) => {},
        Err(e) => {
            return Err(e);
        },
    }
    Ok(pib.gid)
}

/// Judges a claim against its attestation report under the attestation
/// service's root key.
pub fn verify_attestation(report: &IASReport, to_claim: ClaimStruct) -> (result: Result<
    u32,
    ContractError,
>)
    ensures
        result == evidence_outcome(*report, to_claim, INTEL_ROOT_EXPONENT@, INTEL_ROOT_MODULUS@),
{
    verify_attestation_with_key(
        report,
        to_claim,
        INTEL_ROOT_EXPONENT.as_slice(),
        INTEL_ROOT_MODULUS.as_slice(),
    )
}

/// What a claim with an accepted report is paid, or why it is turned down:
/// `ReplayedGroupId` where the group identifier is used up; else
/// `ArithmeticOverflow` where the count of identifiers cannot grow; else
/// what `payout` says for the claimant's shares.
pub open spec fn settlement(
    pot: RewardPot,
    storage: LedgerStore,
    gid: u32,
    claimant: Seq<u8>,
) -> Result<nat, ContractError> {
    if is_seen(storage.seen_group_ids@, gid) {
        Err(ContractError::ReplayedGroupId)
    } else if pot.GEIDs@ + 1 >= u256_limit() {
        Err(ContractError::ArithmeticOverflow)
    } else {
        payout(
            pot.total_reward_units@,
            pot.pot_of_rewards@,
            shares_held(storage.rewarded@, claimant),
        )
    }
}

/// True when the ledger `pot`, `storage` has become `new_pot`, `new_storage`
/// by a paid claim: the group identifier is used up by the claimant, the
/// count of identifiers is one higher, the claimant has a record, and
/// everything else is as it was.
pub open spec fn claim_settled(
    pot: RewardPot,
    storage: LedgerStore,
    new_pot: RewardPot,
    new_storage: LedgerStore,
    gid: u32,
    claimant: Seq<u8>,
    claim_time: u64,
) -> bool {
    &&& new_storage.seen_group_ids@ == storage.seen_group_ids@.push((gid, claimant))
    &&& is_seen(new_storage.seen_group_ids@, gid)
    &&& claim_recorded(storage.rewarded@, new_storage.rewarded@, claimant, claim_time)
    &&& new_storage.donations == storage.donations
    &&& new_pot.GEIDs@ == pot.GEIDs@ + 1
    &&& new_pot.total_reward_units == pot.total_reward_units
    &&& new_pot.pot_of_rewards == pot.pot_of_rewards
}

/// What a claim is paid, or why it is turned down, given how it fared against
/// its report.
pub open spec fn claim_outcome(
    pot: RewardPot,
    storage: LedgerStore,
    evidence: Result<u32, ContractError>,
    claimant: Seq<u8>,
) -> Result<nat, ContractError> {
    match evidence {
        Ok(gid) => settlement(pot, storage, gid, claimant),
        Err(e) => Err(e),
    }
}

/// True when a claim that fared against its report as `evidence` says has
/// led from the ledger `pot`, `storage` to `result` and the ledger
/// `new_pot`, `new_storage`: the result is what `claim_outcome` names; a
/// paid claim is settled, and a claim that is turned down changes nothing.
pub open spec fn claim_judged(
    pot: RewardPot,
    storage: LedgerStore,
    new_pot: RewardPot,
    new_storage: LedgerStore,
    evidence: Result<u32, ContractError>,
    claimant: Seq<u8>,
    claim_time: u64,
    result: Result<U256, ContractError>,
) -> bool {
    &&& agrees(result, claim_outcome(pot, storage, evidence, claimant))
    &&& result is Ok ==> evidence is Ok && claim_settled(
        pot,
        storage,
        new_pot,
        new_storage,
        evidence.unwrap(),
        claimant,
        claim_time,
    )
    &&& result is Err ==> new_pot == pot && new_storage == storage
}

/// Pays a claim whose report was accepted and names the hardware group
/// identifier `gid`. A group identifier that is used up is turned down,
/// whoever claims with it. Where the claim is turned down, nothing changes.
pub fn settle_claim(
    pot: &mut RewardPot,
    storage: &mut LedgerStore,
    gid: u32,
    claimant: Vec<u8>,
    claim_time: u64,
) -> (result: Result<U256, ContractError>)
    ensures
        claim_judged(
            *old(pot),
            *old(storage),
            *final(pot),
            *final(storage),
            Ok(gid),
            claimant@,
            claim_time,
            result,
        ),
        is_seen(old(storage).seen_group_ids@, gid) ==> result == Err::<U256, ContractError>(
            ContractError::ReplayedGroupId,
        ),
        old(storage).wf() ==> final(storage).wf(),
{
    if storage.seen_group_ids.contains(gid) {
        return Err(ContractError::ReplayedGroupId);
    }
    let one: U256 = U256::from_u128(1);
    let count: U256 = match pot.GEIDs.checked_add(&one) {
        Ok(count) => count,
        Err(e) => {
            return Err(e);
        },
    };
    let rewarded_key: Vec<u8> = slice_to_vec(claimant.as_slice());
    let amount: U256 = match pot.claim_rewards(storage, rewarded_key, claim_time) {
        Ok(amount) => amount,
        Err(e) => {
            return Err(e);
        },
    };
    storage.seen_group_ids.record(gid, claimant);
    pot.GEIDs = count;
    assert(storage.seen_group_ids@.last().0 == gid);
    Ok(amount)
}

/// Using up a hardware group identifier that was not used up keeps every
/// identifier listed once.
pub proof fn lemma_claim_settled_keeps_groups_distinct(
    storage: LedgerStore,
    new_storage: LedgerStore,
    gid: u32,
    claimant: Seq<u8>,
)
    requires
        distinct_group_ids(storage.seen_group_ids@),
        !is_seen(storage.seen_group_ids@, gid),
        new_storage.seen_group_ids@ == storage.seen_group_ids@.push((gid, claimant)),
    ensures
        distinct_group_ids(new_storage.seen_group_ids@),
        is_seen(new_storage.seen_group_ids@, gid),
{
    assert(new_storage.seen_group_ids@.last().0 == gid);
}

/// A hardware group identifier that is used up is turned down, whoever
/// claims with it and whatever the pot holds.
pub proof fn lemma_replay_is_turned_down(
    pot: RewardPot,
    storage: LedgerStore,
    gid: u32,
    claimant: Seq<u8>,
)
    requires
        is_seen(storage.seen_group_ids@, gid),
    ensures
        settlement(pot, storage, gid, claimant) == Err::<nat, ContractError>(
            ContractError::ReplayedGroupId,
        ),
        claim_outcome(pot, storage, Ok(gid), claimant) == Err::<nat, ContractError>(
            ContractError::ReplayedGroupId,
        ),
{
}

/// A claim with a hardware group identifier that is used up fails as a
/// replay and changes nothing, whoever claims: the list of identifiers is as
/// it was, with the identifier still under its first claimant and no new
/// entry; the claimant has the record, or no record, that there was before;
/// and the pot is as it was.
pub proof fn lemma_replay_changes_nothing(
    pot: RewardPot,
    storage: LedgerStore,
    new_pot: RewardPot,
    new_storage: LedgerStore,
    gid: u32,
    claimant: Seq<u8>,
    claim_time: u64,
    result: Result<U256, ContractError>,
)
    requires
        is_seen(storage.seen_group_ids@, gid),
        claim_judged(pot, storage, new_pot, new_storage, Ok(gid), claimant, claim_time, result),
    ensures
        result == Err::<U256, ContractError>(ContractError::ReplayedGroupId),
        new_pot == pot,
        new_storage == storage,
        new_storage.seen_group_ids@ == storage.seen_group_ids@,
        lookup(new_storage.rewarded@, claimant) == lookup(storage.rewarded@, claimant),
        new_pot.pot_of_rewards == pot.pot_of_rewards,
{
}

/// A paid claim cannot be repeated: the same evidence is turned down from
/// then on as a replay, whoever claims with it.
pub proof fn lemma_paid_claim_cannot_be_repeated(
    pot: RewardPot,
    storage: LedgerStore,
    new_pot: RewardPot,
    new_storage: LedgerStore,
    evidence: Result<u32, ContractError>,
    claimant: Seq<u8>,
    claim_time: u64,
    result: Result<U256, ContractError>,
    next_claimant: Seq<u8>,
)
    requires
        claim_judged(pot, storage, new_pot, new_storage, evidence, claimant, claim_time, result),
        result is Ok,
    ensures
        claim_outcome(new_pot, new_storage, evidence, next_claimant) == Err::<
            nat,
            ContractError,
        >(ContractError::ReplayedGroupId),
{
}

/// A paid claim keeps the count of hardware group identifiers in step with
/// the list of those that are used up.
pub proof fn lemma_paid_claim_keeps_count(
    pot: RewardPot,
    storage: LedgerStore,
    new_pot: RewardPot,
    new_storage: LedgerStore,
    gid: u32,
    claimant: Seq<u8>,
    claim_time: u64,
)
    requires
        claim_settled(pot, storage, new_pot, new_storage, gid, claimant, claim_time),
        pot.GEIDs@ == storage.seen_group_ids@.len(),
    ensures
        new_pot.GEIDs@ == new_storage.seen_group_ids@.len(),
{
}

/// Judges a claim against its attestation report under the public key with
/// the given exponent and modulus, and pays it. Where the claim is turned
/// down, nothing changes.
pub fn claim_geid_with_key(
    pot: &mut RewardPot,
    storage: &mut LedgerStore,
    report: &IASReport,
    to_claim: ClaimStruct,
    claimant: Vec<u8>,
    claim_time: u64,
    exponent: &[u8],
    modulus: &[u8],
) -> (result: Result<U256, ContractError>)
    ensures
        claim_judged(
            *old(pot),
            *old(storage),
            *final(pot),
            *final(storage),
            evidence_outcome(*report, to_claim, exponent@, modulus@),
            claimant@,
            claim_time,
            result,
        ),
        old(storage).wf() ==> final(storage).wf(),
{
    let gid: u32 = match verify_attestation_with_key(report, to_claim, exponent, modulus) {
        Ok(gid) => gid,
        Err(e) => {
            return Err(e);
        },
    };
    settle_claim(pot, storage, gid, claimant, claim_time)
}

/// Judges a claim against its attestation report under the attestation
/// service's root key, and pays it. Where the claim is turned down, nothing
/// changes.
pub fn claim_geid(
    pot: &mut RewardPot,
    storage: &mut LedgerStore,
    report: &IASReport,
    to_claim: ClaimStruct,
    claimant: Vec<u8>,
    claim_time: u64,
) -> (result: Result<U256, ContractError>)
    ensures
        claim_judged(
            *old(pot),
            *old(storage),
            *final(pot),
            *final(storage),
            evidence_outcome(*report, to_claim, INTEL_ROOT_EXPONENT@, INTEL_ROOT_MODULUS@),
            claimant@,
            claim_time,
            result,
        ),
        old(storage).wf() ==> final(storage).wf(),
{
    claim_geid_with_key(
        pot,
        storage,
        report,
        to_claim,
        claimant,
        claim_time,
        INTEL_ROOT_EXPONENT.as_slice(),
        INTEL_ROOT_MODULUS.as_slice(),
    )
}

/// Sets up the pot of a new ledger.
pub fn instantiate(msg: InstantiateMsg) -> (pot: RewardPot)
    ensures
        pot.total_reward_units == msg.total_reward_shares,
        pot.GEIDs@ == 0,
        pot.pot_of_rewards@ == 0,
{
    RewardPot::new(msg.total_reward_shares)
}

/// A page of donors, oldest first.
pub fn fetch_donors(storage: &LedgerStore, page: u64, page_size: u64) -> (response:
    FetchDonorsResponse)
    ensures
        pairs_of(response.donors@) == storage.donations@.subrange(
            page_start(storage.donations@.len(), page as nat, page_size as nat) as int,
            page_end(storage.donations@.len(), page as nat, page_size as nat) as int,
        ),
{
    FetchDonorsResponse { donors: storage.donations.page(page, page_size) }
}

/// A page of claimants, oldest first.
pub fn fetch_claimants(storage: &LedgerStore, page: u64, page_size: u64) -> (response:
    FetchRewardedResponse)
    ensures
        pairs_of(response.rewarded@) == storage.rewarded@.subrange(
            page_start(storage.rewarded@.len(), page as nat, page_size as nat) as int,
            page_end(storage.rewarded@.len(), page as nat, page_size as nat) as int,
        ),
{
    FetchRewardedResponse { rewarded: storage.rewarded.page(page, page_size) }
}

/// A page of hardware group identifiers that are used up, oldest first.
pub fn fetch_seen_guids(storage: &LedgerStore, page: u64, page_size: u64) -> (response:
    FetchSeenGroupIds)
    ensures
        response.rewarded@ == group_ids(storage.seen_group_ids@).subrange(
            page_start(storage.seen_group_ids@.len(), page as nat, page_size as nat) as int,
            page_end(storage.seen_group_ids@.len(), page as nat, page_size as nat) as int,
        ),
{
    FetchSeenGroupIds { rewarded: storage.seen_group_ids.page(page, page_size) }
}

/// True when `response` is the page that `msg` asks for.
pub open spec fn answers(storage: LedgerStore, msg: QueryMsg, response: QueryResponse) -> bool {
    match msg {
        QueryMsg::FetchDonors { page, page_size } => {
            &&& response matches QueryResponse::Donors(donors)
            &&& pairs_of(donors.donors@) == storage.donations@.subrange(
                page_start(storage.donations@.len(), page as nat, page_size as nat) as int,
                page_end(storage.donations@.len(), page as nat, page_size as nat) as int,
            )
        },
        QueryMsg::FetchClaimants { page, page_size } => {
            &&& response matches QueryResponse::Claimants(claimants)
            &&& pairs_of(claimants.rewarded@) == storage.rewarded@.subrange(
                page_start(storage.rewarded@.len(), page as nat, page_size as nat) as int,
                page_end(storage.rewarded@.len(), page as nat, page_size as nat) as int,
            )
        },
        QueryMsg::FetchSeenGuids { page, page_size } => {
            &&& response matches QueryResponse::SeenGuids(seen)
            &&& seen.rewarded@ == group_ids(storage.seen_group_ids@).subrange(
                page_start(storage.seen_group_ids@.len(), page as nat, page_size as nat) as int,
                page_end(storage.seen_group_ids@.len(), page as nat, page_size as nat) as int,
            )
        },
    }
}

/// Answers a query with the page that it asks for.
pub fn query(storage: &LedgerStore, msg: QueryMsg) -> (response: QueryResponse)
    ensures
        answers(*storage, msg, response),
{
    match msg {
        QueryMsg::FetchDonors { page, page_size } => QueryResponse::Donors(
            fetch_donors(storage, page, page_size),
        ),
        QueryMsg::FetchClaimants { page, page_size } => QueryResponse::Claimants(
            fetch_claimants(storage, page, page_size),
        ),
        QueryMsg::FetchSeenGuids { page, page_size } => QueryResponse::SeenGuids(
            fetch_seen_guids(storage, page, page_size),
        ),
    }
}

} // verus!
