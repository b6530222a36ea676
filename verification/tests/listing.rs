use geid_rewards::contract::{fetch_claimants, fetch_donors, fetch_seen_guids, query};
use geid_rewards::msg::{
    FetchDonorsResponse, FetchRewardedResponse, FetchSeenGroupIds, QueryMsg, QueryResponse,
};
use geid_rewards::state::{DonationInfo, LedgerStore, RewardInfo, RewardPot, SeenGroupIds};
use geid_rewards::table::{page_bounds, Table};
use geid_rewards::uint256::{Decimal256, U256};

fn amount(value: u128) -> U256 {
    U256::from_u128(value)
}

fn donation(size: u128) -> DonationInfo {
    DonationInfo { donation_size: amount(size), last_donation: size as u64 }
}

fn ledger_with_five_of_each() -> LedgerStore {
    let mut pot = RewardPot::new(amount(10));
    let mut storage = LedgerStore::new();
    for i in 1..=5u8 {
        pot.add_donation(&mut storage, vec![b'd', i], amount(i as u128), i as u64).unwrap();
        pot.claim_rewards(&mut storage, vec![b'c', i], 100 + i as u64).unwrap();
        storage.seen_group_ids.record(1000 + i as u32, vec![b'c', i]);
    }
    storage
}

#[test]
fn page_bounds_are_cut_off_at_the_end() {
    assert_eq!(page_bounds(10, 0, 3), (0, 3));
    assert_eq!(page_bounds(10, 1, 3), (3, 6));
    assert_eq!(page_bounds(10, 3, 3), (9, 10));
    assert_eq!(page_bounds(10, 4, 3), (10, 10));
    assert_eq!(page_bounds(10, 0, 10), (0, 10));
    assert_eq!(page_bounds(10, 0, 11), (0, 10));
    assert_eq!(page_bounds(10, 5, 0), (0, 0));
    assert_eq!(page_bounds(10, 20, 0), (0, 0));
    assert_eq!(page_bounds(0, 0, 5), (0, 0));
    assert_eq!(page_bounds(10, u64::MAX, u64::MAX), (10, 10));
    assert_eq!(page_bounds(10, u64::MAX, 1), (10, 10));
    assert_eq!(page_bounds(10, 0, u64::MAX), (0, 10));
    assert_eq!(page_bounds(10, 1, u64::MAX), (10, 10));
}

#[test]
fn donors_page_by_page() {
    let storage = ledger_with_five_of_each();
    assert_eq!(
        fetch_donors(&storage, 0, 2).donors,
        vec![(vec![b'd', 1], donation(1)), (vec![b'd', 2], donation(2))]
    );
    assert_eq!(
        fetch_donors(&storage, 1, 2).donors,
        vec![(vec![b'd', 3], donation(3)), (vec![b'd', 4], donation(4))]
    );
    assert_eq!(fetch_donors(&storage, 2, 2).donors, vec![(vec![b'd', 5], donation(5))]);
    assert_eq!(fetch_donors(&storage, 3, 2).donors, vec![]);
    assert_eq!(fetch_donors(&storage, 0, 0).donors, vec![]);
    assert_eq!(fetch_donors(&storage, 0, 100).donors.len(), 5);
    assert_eq!(fetch_donors(&storage, u64::MAX, u64::MAX).donors, vec![]);
}

#[test]
fn claimants_page_by_page() {
    let storage = ledger_with_five_of_each();
    let one = |i: u8| {
        (vec![b'c', i], RewardInfo { reward_shares: Decimal256::one(), claim_time: 100 + i as u64 })
    };
    assert_eq!(fetch_claimants(&storage, 0, 3).rewarded, vec![one(1), one(2), one(3)]);
    assert_eq!(fetch_claimants(&storage, 1, 3).rewarded, vec![one(4), one(5)]);
    assert_eq!(fetch_claimants(&storage, 2, 3).rewarded, vec![]);
}

#[test]
fn seen_groups_page_by_page() {
    let storage = ledger_with_five_of_each();
    assert_eq!(fetch_seen_guids(&storage, 0, 4).rewarded, vec![1001, 1002, 1003, 1004]);
    assert_eq!(fetch_seen_guids(&storage, 1, 4).rewarded, vec![1005]);
    assert_eq!(fetch_seen_guids(&storage, 4, 1).rewarded, vec![1005]);
    assert_eq!(fetch_seen_guids(&storage, 5, 1).rewarded, Vec::<u32>::new());
}

#[test]
fn queries_are_answered_with_their_page() {
    let storage = ledger_with_five_of_each();
    assert_eq!(
        query(&storage, QueryMsg::FetchDonors { page: 2, page_size: 2 }),
        QueryResponse::Donors(FetchDonorsResponse { donors: vec![(vec![b'd', 5], donation(5))] })
    );
    assert_eq!(
        query(&storage, QueryMsg::FetchClaimants { page: 9, page_size: 2 }),
        QueryResponse::Claimants(FetchRewardedResponse { rewarded: vec![] })
    );
    assert_eq!(
        query(&storage, QueryMsg::FetchSeenGuids { page: 1, page_size: 3 }),
        QueryResponse::SeenGuids(FetchSeenGroupIds { rewarded: vec![1004, 1005] })
    );
}

#[test]
fn recording_replaces_in_place() {
    let mut table: Table<DonationInfo> = Table::new();
    table.insert(b"a".to_vec(), donation(1));
    table.insert(b"b".to_vec(), donation(2));
    table.insert(b"c".to_vec(), donation(3));
    table.insert(b"b".to_vec(), donation(20));
    assert_eq!(table.len(), 3);
    assert_eq!(table.get(b"a"), Some(donation(1)));
    assert_eq!(table.get(b"b"), Some(donation(20)));
    assert_eq!(table.get(b"c"), Some(donation(3)));
    assert_eq!(table.get(b""), None);
    assert_eq!(table.get(b"bb"), None);
    assert_eq!(table.find(b"a"), 0);
    assert_eq!(table.find(b"b"), 1);
    assert_eq!(table.find(b"c"), 2);
    assert_eq!(table.find(b"d"), 3);
    assert!(table.contains_key(b"c"));
    assert!(!table.contains_key(b"d"));
    assert_eq!(
        table.page(0, 10),
        vec![
            (b"a".to_vec(), donation(1)),
            (b"b".to_vec(), donation(20)),
            (b"c".to_vec(), donation(3))
        ]
    );
}

#[test]
fn empty_key_is_a_key() {
    let mut table: Table<DonationInfo> = Table::new();
    assert!(!table.contains_key(b""));
    table.insert(Vec::new(), donation(1));
    assert!(table.contains_key(b""));
    assert_eq!(table.get(b""), Some(donation(1)));
}

#[test]
fn seen_groups_are_found() {
    let mut seen = SeenGroupIds::new();
    assert!(!seen.contains(0));
    seen.record(0, b"zero".to_vec());
    seen.record(u32::MAX, b"max".to_vec());
    assert!(seen.contains(0));
    assert!(seen.contains(u32::MAX));
    assert!(!seen.contains(1));
    assert_eq!(seen.len(), 2);
    assert_eq!(seen.page(0, 5), vec![0, u32::MAX]);
}

#[test]
fn pages_in_a_row_make_up_the_table() {
    let storage = ledger_with_five_of_each();
    for page_size in 1..=7u64 {
        let mut all = Vec::new();
        let mut page = 0;
        loop {
            let ids = fetch_seen_guids(&storage, page, page_size).rewarded;
            assert!(ids.len() as u64 <= page_size);
            if ids.is_empty() {
                break;
            }
            all.extend(ids);
            page += 1;
        }
        assert_eq!(all, vec![1001, 1002, 1003, 1004, 1005]);
        let (_, end) = page_bounds(5, page, page_size);
        let (next_start, _) = page_bounds(5, page + 1, page_size);
        assert_eq!(end, next_start);
    }
}
