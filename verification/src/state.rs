//! The ledger: the pot of rewards, what each donor has given, what each
//! claimant holds, and the hardware group identifiers that are used up.
#![allow(non_camel_case_types)]
#![allow(non_snake_case)]

use crate::error::ContractError;
use crate::table::{
    distinct_keys, has_key, index_of_key, lemma_index_of_key, lemma_lookup_after_upsert,
    lemma_lookup_after_upsert_other, lemma_upsert_keeps_keys_distinct, lookup, page_bounds,
    page_end, page_start, upsert, Table,
};
use crate::uint256::{agrees, ratio_outcome, u256_limit, Decimal256, U256, DECIMAL_FRACTIONAL};
use vstd::prelude::*;

verus! {

/// A claim as a caller words it: who claims, and with what message.
#[derive(Clone, Debug, PartialEq, Eq)]
pub struct GEID_CLAIM {
    pub address: String,
    pub claim_message: String,
}

/// What a claimant holds.
#[derive(Clone, Copy, Debug, PartialEq, Eq)]
pub struct RewardInfo {
    /// Amount of reward shares that this claimant has.
    pub reward_shares: Decimal256,
    /// The unix timestamp of when this claimant claimed.
    pub claim_time: u64,
}

/// The pot that donors fill and claimants draw on.
#[derive(Clone, Copy, Debug, PartialEq, Eq)]
pub struct RewardPot {
    /// The number of reward units that the pot is divided into.
    pub total_reward_units: U256,
    /// The number of group identifiers that have claimed from the pot.
    pub GEIDs: U256,
    /// Total amount of donations available to claim from.
    pub pot_of_rewards: U256,
}

/// What a donor has given.
#[derive(Clone, Copy, Debug, PartialEq, Eq)]
pub struct DonationInfo {
    /// The amount of funds that this donor has donated, all donations
    /// together.
    pub donation_size: U256,
    /// The unix timestamp of the last donation.
    pub last_donation: u64,
}

/// A hardware group identifier that is used up, and the claimant who used
/// it.
#[derive(Clone, Debug, PartialEq, Eq)]
pub struct SeenGroupId {
    pub gid: u32,
    pub claimant: Vec<u8>,
}

/// The hardware group identifiers that are used up, oldest first.
#[derive(Clone, Debug, PartialEq, Eq)]
pub struct SeenGroupIds {
    pub entries: Vec<SeenGroupId>,
}

impl View for SeenGroupIds {
    type V = Seq<(u32, Seq<u8>)>;

    /// The identifiers, each with its claimant, oldest first.
    open spec fn view(&self) -> Seq<(u32, Seq<u8>)> {
        self.entries@.map_values(|e: SeenGroupId| (e.gid, e.claimant@))
    }
}

/// True when `gid` is among the identifiers that are used up.
pub open spec fn is_seen(seen: Seq<(u32, Seq<u8>)>, gid: u32) -> bool {
    exists|i: int| 0 <= i < seen.len() && (#[trigger] seen[i]).0 == gid
}

/// True when no identifier is listed twice.
pub open spec fn distinct_group_ids(seen: Seq<(u32, Seq<u8>)>) -> bool {
    forall|i: int, j: int|
        0 <= i < j < seen.len() ==> (#[trigger] seen[i]).0 != (#[trigger] seen[j]).0
}

/// The identifiers alone, in their order.
pub open spec fn group_ids(seen: Seq<(u32, Seq<u8>)>) -> Seq<u32> {
    seen.map_values(|pair: (u32, Seq<u8>)| pair.0)
}

impl SeenGroupIds {
    /// No identifier is used up.
    pub fn new() -> (seen: SeenGroupIds)
        ensures
            seen@ == Seq::<(u32, Seq<u8>)>::empty(),
    {
        let seen = SeenGroupIds { entries: Vec::new() };
        seen
    }

    /// The number of identifiers that are used up.
    pub fn len(&self) -> (len: usize)
        ensures
            len == self@.len(),
    {
        self.entries.len()
    }

    /// Tells whether `gid` is used up.
    pub fn contains(&self, gid: u32) -> (found: bool)
        ensures
            found == is_seen(self@, gid),
    {
        let mut i: usize = 0;
        while i < self.entries.len()
            invariant
                i <= self.entries.len(),
                forall|j: int| 0 <= j < i ==> (#[trigger] self@[j]).0 != gid,
            decreases self.entries.len() - i,
        {
            if self.entries[i].gid == gid {
                assert(self@[i as int].0 == gid);
                return true;
            }
            i += 1;
        }
        false
    }

    /// Marks `gid` as used up by `claimant`.
    pub fn record(&mut self, gid: u32, claimant: Vec<u8>)
        ensures
            final(self)@ == old(self)@.push((gid, claimant@)),
    {
        self.entries.push(SeenGroupId { gid, claimant });
    }

    /// The identifiers of one page, oldest first. Pages are counted from
    /// zero and hold `page_size` identifiers each; a page past the end is
    /// empty.
    pub fn page(&self, page: u64, page_size: u64) -> (ids: Vec<u32>)
        ensures
            ids@ == group_ids(self@).subrange(
                page_start(self@.len(), page as nat, page_size as nat) as int,
                page_end(self@.len(), page as nat, page_size as nat) as int,
            ),
    {
        let (start, end) = page_bounds(self.entries.len(), page, page_size);
        let mut ids: Vec<u32> = Vec::new();
        let mut i: usize = start;
        while i < end
            invariant
                start <= i <= end <= self@.len(),
                ids@ =~= group_ids(self@).subrange(start as int, i as int),
            decreases end - i,
        {
            ids.push(self.entries[i].gid);
            i += 1;
        }
        ids
    }
}

/// Everything the ledger keeps besides the pot itself.
#[derive(Clone, Debug, PartialEq, Eq)]
pub struct LedgerStore {
    /// What each donor has given, under the donor's address.
    pub donations: Table<DonationInfo>,
    /// What each claimant holds, under the claimant's address.
    pub rewarded: Table<RewardInfo>,
    /// The hardware group identifiers that are used up.
    pub seen_group_ids: SeenGroupIds,
}

impl LedgerStore {
    /// True when every donor and every claimant has one record, and every
    /// hardware group identifier that is used up is listed once.
    pub open spec fn wf(&self) -> bool {
        &&& distinct_keys(self.donations@)
        &&& distinct_keys(self.rewarded@)
        &&& distinct_group_ids(self.seen_group_ids@)
    }

    /// A ledger in which nothing has happened yet.
    pub fn new() -> (store: LedgerStore)
        ensures
            store.donations@ == Seq::<(Seq<u8>, DonationInfo)>::empty(),
            store.rewarded@ == Seq::<(Seq<u8>, RewardInfo)>::empty(),
            store.seen_group_ids@ == Seq::<(u32, Seq<u8>)>::empty(),
            store.wf(),
    {
        LedgerStore {
            donations: Table::new(),
            rewarded: Table::new(),
            seen_group_ids: SeenGroupIds::new(),
        }
    }
}

/// What `donor` has given so far: the size of the donor's record, or zero
/// where there is none.
pub open spec fn donated_so_far(donations: Seq<(Seq<u8>, DonationInfo)>, donor: Seq<u8>) -> nat {
    match lookup(donations, donor) {
        Some(record) => record.donation_size@,
        None => 0,
    }
}

/// True when `after` is `before` with one more donation by `donor`: the
/// donor's record is `amount` larger and carries the time of this donation,
/// and nothing else has changed.
pub open spec fn donation_recorded(
    before: Seq<(Seq<u8>, DonationInfo)>,
    after: Seq<(Seq<u8>, DonationInfo)>,
    donor: Seq<u8>,
    amount: nat,
    donation_time: u64,
) -> bool {
    &&& lookup(after, donor) matches Some(record)
    &&& record.donation_size@ == donated_so_far(before, donor) + amount
    &&& record.last_donation == donation_time
    &&& after == upsert(before, donor, record)
}

/// What all donors together have given.
pub open spec fn total_donated(donations: Seq<(Seq<u8>, DonationInfo)>) -> nat
    decreases donations.len(),
{
    if donations.len() == 0 {
        0
    } else {
        total_donated(donations.drop_last()) + donations.last().1.donation_size@
    }
}

/// Replacing one record changes the total by the difference between the new
/// record and the old one.
pub proof fn lemma_total_donated_update(
    donations: Seq<(Seq<u8>, DonationInfo)>,
    at: int,
    record: (Seq<u8>, DonationInfo),
)
    requires
        0 <= at < donations.len(),
    ensures
        total_donated(donations.update(at, record)) + donations[at].1.donation_size@
            == total_donated(donations) + record.1.donation_size@,
    decreases donations.len(),
{
    let after = donations.update(at, record);
    if at == donations.len() - 1 {
        assert(after.drop_last() =~= donations.drop_last());
    } else {
        assert(after.drop_last() =~= donations.drop_last().update(at, record));
        lemma_total_donated_update(donations.drop_last(), at, record);
    }
}

/// A donation raises what all donors together have given by its amount.
pub proof fn lemma_donation_raises_total(
    before: Seq<(Seq<u8>, DonationInfo)>,
    after: Seq<(Seq<u8>, DonationInfo)>,
    donor: Seq<u8>,
    amount: nat,
    donation_time: u64,
)
    requires
        donation_recorded(before, after, donor, amount, donation_time),
    ensures
        total_donated(after) == total_donated(before) + amount,
{
    let record = lookup(after, donor).unwrap();
    if has_key(before, donor) {
        lemma_index_of_key(before, donor);
        lemma_total_donated_update(before, index_of_key(before, donor), (donor, record));
    } else {
        assert(after.drop_last() =~= before);
    }
}

/// The shares that `claimant` holds when claiming: those on record, or one
/// whole share for a claimant without a record.
pub open spec fn shares_held(rewarded: Seq<(Seq<u8>, RewardInfo)>, claimant: Seq<u8>) -> nat {
    match lookup(rewarded, claimant) {
        Some(info) => info.reward_shares@,
        None => DECIMAL_FRACTIONAL as nat,
    }
}

/// True when `after` is `before` once `claimant` has claimed at
/// `claim_time`: a claimant with a record keeps it as it is, and a claimant
/// without one gets a record of one whole share and the time of the claim.
pub open spec fn claim_recorded(
    before: Seq<(Seq<u8>, RewardInfo)>,
    after: Seq<(Seq<u8>, RewardInfo)>,
    claimant: Seq<u8>,
    claim_time: u64,
) -> bool {
    if has_key(before, claimant) {
        after == before
    } else {
        &&& after.len() == before.len() + 1
        &&& after == before.push(after.last())
        &&& after.last().0 == claimant
        &&& after.last().1.reward_shares@ == DECIMAL_FRACTIONAL
        &&& after.last().1.claim_time == claim_time
    }
}

/// What a claimant is paid: the claimant's part of the pot. The part is the
/// claimant's shares divided by the number of reward units, cut off after
/// 18 decimal places; the payout is the pot times that part, cut off to a
/// whole amount. `shares` counts atomic units, 10^18 to the share.
pub open spec fn payout(total_reward_units: nat, pot_of_rewards: nat, shares: nat) -> Result<
    nat,
    ContractError,
> {
    if total_reward_units == 0 {
        Err(ContractError::DivisionByZero)
    } else {
        ratio_outcome(pot_of_rewards, shares / total_reward_units, DECIMAL_FRACTIONAL as nat)
    }
}

impl RewardPot {
    /// True when the pot holds what all donors together have given.
    pub open spec fn backed_by(&self, storage: LedgerStore) -> bool {
        self.pot_of_rewards@ == total_donated(storage.donations@)
    }

    /// An empty pot that is divided into `total_reward_units` units.
    pub fn new(total_reward_units: U256) -> (pot: RewardPot)
        ensures
            pot.total_reward_units == total_reward_units,
            pot.GEIDs@ == 0,
            pot.pot_of_rewards@ == 0,
    {
        RewardPot { total_reward_units, GEIDs: U256::zero(), pot_of_rewards: U256::zero() }
    }

    /// Adds a donation of `amount` by `donor` to the pot and to the donor's
    /// record, which is created where the donor has none, and notes the
    /// time of the donation. Where the pot or the record would leave the
    /// range of 256 bits, nothing changes.
    pub fn add_donation(
        &mut self,
        storage: &mut LedgerStore,
        donor: Vec<u8>,
        amount: U256,
        donation_time: u64,
    ) -> (result: Result<(), ContractError>)
        ensures
            result is Ok <==> old(self).pot_of_rewards@ + amount@ < u256_limit() && donated_so_far(
                old(storage).donations@,
                donor@,
            ) + amount@ < u256_limit(),
            result matches Err(e) ==> e == ContractError::ArithmeticOverflow,
            result is Err ==> *final(self) == *old(self) && *final(storage) == *old(storage),
            result is Ok ==> final(self).pot_of_rewards@ == old(self).pot_of_rewards@ + amount@,
            result is Ok ==> donation_recorded(
                old(storage).donations@,
                final(storage).donations@,
                donor@,
                amount@,
                donation_time,
            ),
            final(self).total_reward_units == old(self).total_reward_units,
            final(self).GEIDs == old(self).GEIDs,
            final(storage).rewarded == old(storage).rewarded,
            final(storage).seen_group_ids == old(storage).seen_group_ids,
            old(storage).wf() ==> final(storage).wf(),
            old(self).backed_by(*old(storage)) ==> final(self).backed_by(*final(storage)),
    {
        let donation_size: U256 = match storage.donations.get(donor.as_slice()) {
            Some(record) => record.donation_size,
            None => U256::zero(),
        };
        let new_pot: U256 = match self.pot_of_rewards.checked_add(&amount) {
            Ok(sum) => sum,
            Err(e) => {
                return Err(e);
            },
        };
        let new_size: U256 = match donation_size.checked_add(&amount) {
            Ok(sum) => sum,
            Err(e) => {
                return Err(e);
            },
        };
        let record = DonationInfo { donation_size: new_size, last_donation: donation_time };
        proof {
            lemma_lookup_after_upsert(storage.donations@, donor@, record);
            if storage.wf() {
                lemma_upsert_keeps_keys_distinct(storage.donations@, donor@, record);
            }
        }
        self.pot_of_rewards = new_pot;
        storage.donations.insert(donor, record);
        proof {
            lemma_donation_raises_total(
                old(storage).donations@,
                storage.donations@,
                donor@,
                amount@,
                donation_time,
            );
        }
        Ok(())
    }

    /// The amount that a claimant with `reward_info` can claim from the pot:
    /// `DivisionByZero` where the pot has no reward units, and
    /// `ArithmeticOverflow` where the amount does not fit in 256 bits.
    pub fn claimable_share_of_pot(&self, reward_info: RewardInfo) -> (result: Result<
        U256,
        ContractError,
    >)
        ensures
            agrees(
                result,
                payout(
                    self.total_reward_units@,
                    self.pot_of_rewards@,
                    reward_info.reward_shares@,
                ),
            ),
    {
        let user_shares: U256 = reward_info.reward_shares.atomics();
        let user_share_of_rewards: U256 = match user_shares.checked_div(&self.total_reward_units) {
            Ok(share) => share,
            Err(e) => {
                return Err(e);
            },
        };
        let whole: U256 = U256::from_u128(DECIMAL_FRACTIONAL);
        self.pot_of_rewards.checked_multiply_ratio(&user_share_of_rewards, &whole)
    }

    /// Pays a claimant: returns the amount that the claimant can claim from
    /// the pot, and gives a claimant without a record one whole share and
    /// the time of this claim. The pot stays as it is. Where no amount can
    /// be computed, nothing changes.
    ///
    /// This operation neither reads nor changes the hardware group
    /// identifiers. That it is carried out at most once for each of them is
    /// seen to by `settle_claim`, which turns a used identifier down before
    /// it gets here.
    pub fn claim_rewards(
        &mut self,
        storage: &mut LedgerStore,
        claimant: Vec<u8>,
        claim_time: u64,
    ) -> (result: Result<U256, ContractError>)
        ensures
            agrees(
                result,
                payout(
                    old(self).total_reward_units@,
                    old(self).pot_of_rewards@,
                    shares_held(old(storage).rewarded@, claimant@),
                ),
            ),
            *final(self) == *old(self),
            result is Err ==> *final(storage) == *old(storage),
            result is Ok ==> claim_recorded(
                old(storage).rewarded@,
                final(storage).rewarded@,
                claimant@,
                claim_time,
            ),
            final(storage).donations == old(storage).donations,
            final(storage).seen_group_ids == old(storage).seen_group_ids,
            old(storage).wf() ==> final(storage).wf(),
    {
        let known: Option<RewardInfo> = storage.rewarded.get(claimant.as_slice());
        let reward_info: RewardInfo = match known {
            Some(reward_info) => reward_info,
            None => RewardInfo { reward_shares: Decimal256::one(), claim_time },
        };
        let amount_to_reward: U256 = match self.claimable_share_of_pot(reward_info) {
            Ok(amount) => amount,
            Err(e) => {
                return Err(e);
            },
        };
        if known.is_none() {
            proof {
                if storage.wf() {
                    lemma_upsert_keeps_keys_distinct(storage.rewarded@, claimant@, reward_info);
                }
            }
            storage.rewarded.insert(claimant, reward_info);
        }
        Ok(amount_to_reward)
    }
}

/// Two donations in a row by one donor add up: the donor's record grows by
/// both amounts and carries the time of the second donation.
pub proof fn lemma_donations_add_up(
    before: Seq<(Seq<u8>, DonationInfo)>,
    between: Seq<(Seq<u8>, DonationInfo)>,
    after: Seq<(Seq<u8>, DonationInfo)>,
    donor: Seq<u8>,
    first_amount: nat,
    first_time: u64,
    second_amount: nat,
    second_time: u64,
)
    requires
        donation_recorded(before, between, donor, first_amount, first_time),
        donation_recorded(between, after, donor, second_amount, second_time),
    ensures
        donated_so_far(after, donor) == donated_so_far(before, donor) + first_amount
            + second_amount,
        lookup(after, donor) is Some,
        lookup(after, donor).unwrap().last_donation == second_time,
        after.len() == between.len(),
{
    lemma_lookup_after_upsert(between, donor, lookup(after, donor).unwrap());
}

/// A donation by one donor leaves the record of every other donor as it is.
pub proof fn lemma_donation_leaves_others(
    before: Seq<(Seq<u8>, DonationInfo)>,
    after: Seq<(Seq<u8>, DonationInfo)>,
    donor: Seq<u8>,
    amount: nat,
    donation_time: u64,
    other: Seq<u8>,
)
    requires
        donation_recorded(before, after, donor, amount, donation_time),
        other != donor,
    ensures
        lookup(after, other) == lookup(before, other),
{
    lemma_lookup_after_upsert_other(before, donor, lookup(after, donor).unwrap(), other);
}

/// A claimant who holds at most one whole share is never paid more than is
/// in the pot, and the payout cannot overflow: with at least one reward
/// unit, `payout` gives an amount and that amount is at most the pot.
pub proof fn lemma_payout_within_pot(total_reward_units: nat, pot_of_rewards: nat, shares: nat)
    requires
        total_reward_units > 0,
        shares <= DECIMAL_FRACTIONAL,
        pot_of_rewards < u256_limit(),
    ensures
        payout(total_reward_units, pot_of_rewards, shares) is Ok,
        payout(total_reward_units, pot_of_rewards, shares).unwrap() <= pot_of_rewards,
{
    let part = shares / total_reward_units;
    let whole = DECIMAL_FRACTIONAL as nat;
    assert(part <= shares) by (nonlinear_arith)
        requires
            part == shares / total_reward_units,
            total_reward_units > 0,
    ;
    assert((pot_of_rewards * part) / whole <= pot_of_rewards) by (nonlinear_arith)
        requires
            part <= whole,
            whole > 0,
    ;
}

} // verus!
