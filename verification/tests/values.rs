//! The plain values: urls, descriptions, defaults, tallies, reports and refunds.
use pips::pips::refund_event;
use pips::store::Module;
use pips::tally::count;
use pips::types::{
    AccountId, Balance, Config, DepositInfo, Error, Event, IdentityId, PipDescription,
    ProposalData, ProposalState, Url, Vote, VotingResult,
};

fn config(max_reporting_size: usize) -> Config {
    Config {
        prune_historical_pips: false,
        min_proposal_deposit: 50,
        quorum_threshold: 70,
        proposal_cool_off_period: 10,
        proposal_duration: 20,
        default_enactment_period: 5,
        max_reporting_size,
    }
}

fn deposit(key: u8, amount: Balance) -> DepositInfo<AccountId, Balance> {
    DepositInfo { owner: AccountId([key; 32]), amount }
}

#[test]
fn a_url_holds_its_bytes() {
    let url = Url::from(b"www.abc.com");
    assert_eq!(url.0, b"www.abc.com".to_vec());
    assert_eq!(url.clone(), url);
    assert_eq!(Url::default().0.len(), 0);
}

#[test]
fn a_description_holds_its_bytes() {
    let description = PipDescription::from(b"test proposal");
    assert_eq!(description.0, b"test proposal".to_vec());
    assert_eq!(description.clone(), description);
    assert_ne!(description, PipDescription::from(b"another proposal"));
}

#[test]
fn accounts_are_equal_where_all_bytes_are() {
    let mut key = [7u8; 32];
    assert_eq!(AccountId(key), AccountId([7u8; 32]));
    key[31] = 8;
    assert_ne!(AccountId(key), AccountId([7u8; 32]));
    assert_ne!(IdentityId(key), IdentityId([7u8; 32]));
    assert_eq!(IdentityId(key), IdentityId(key));
}

#[test]
fn defaults() {
    let vote: Vote<Balance> = Vote::default();
    assert_eq!(vote, Vote::NotCast);
    assert_eq!(ProposalState::default(), ProposalState::Pending);
    let result: VotingResult<Balance> = VotingResult::default();
    assert_eq!(
        result,
        VotingResult { ayes_count: 0, ayes_stake: 0, nays_count: 0, nays_stake: 0 }
    );
}

#[test]
fn a_deposit_is_of_nothing_and_nobody_by_default() {
    let info: DepositInfo<AccountId, Balance> = DepositInfo::default();
    assert_eq!(info, deposit(0, 0));
    assert_eq!(AccountId::default(), AccountId([0; 32]));
    assert_eq!(Module::new(config(16)).deposits(3, AccountId([1; 32])), info);
}

#[test]
fn votes_are_counted_one_by_one() {
    let mut tally: VotingResult<Balance> = VotingResult::default();
    for stake in [10u128, 20, 30] {
        tally = count(tally, Vote::Yes(stake)).unwrap();
        tally = count(tally, Vote::No(stake + 1)).unwrap();
    }
    assert_eq!(
        tally,
        VotingResult { ayes_count: 3, ayes_stake: 60, nays_count: 3, nays_stake: 63 }
    );
    assert_eq!(count(tally, Vote::NotCast), Ok(tally));
}

#[test]
fn the_number_of_votes_can_overflow() {
    let full: VotingResult<Balance> = VotingResult {
        ayes_count: u32::MAX,
        ayes_stake: 1,
        nays_count: u32::MAX,
        nays_stake: 2,
    };
    assert_eq!(count(full, Vote::Yes(1)), Err(Error::NumberOfVotesExceeded));
    assert_eq!(count(full, Vote::No(1)), Err(Error::NumberOfVotesExceeded));
    let almost = VotingResult { ayes_count: u32::MAX - 1, ..full };
    assert_eq!(
        count(almost, Vote::Yes(1)),
        Ok(VotingResult { ayes_count: u32::MAX, ayes_stake: 2, ..full })
    );
}

#[test]
fn the_stake_can_overflow() {
    let rich: VotingResult<Balance> = VotingResult {
        ayes_count: 1,
        ayes_stake: Balance::MAX - 4,
        nays_count: 1,
        nays_stake: Balance::MAX,
    };
    assert_eq!(count(rich, Vote::Yes(5)), Err(Error::StakeAmountOfVotesExceeded));
    assert_eq!(count(rich, Vote::No(1)), Err(Error::StakeAmountOfVotesExceeded));
    assert_eq!(
        count(rich, Vote::Yes(4)),
        Ok(VotingResult { ayes_count: 2, ayes_stake: Balance::MAX, ..rich })
    );
    assert_eq!(count(rich, Vote::No(0)), Ok(VotingResult { nays_count: 2, ..rich }));
}

#[test]
fn small_proposals_are_reported_whole() {
    let module = Module::new(config(16));
    let call: Vec<u8> = (0u8..16).collect();
    assert_eq!(module.reportable_proposal_data(&call), ProposalData::Proposal(call.clone()));
    assert_eq!(
        module.reportable_proposal_data(&Vec::new()),
        ProposalData::Proposal(Vec::new())
    );
}

#[test]
fn large_proposals_are_reported_by_their_hash() {
    let module = Module::new(config(16));
    let call: Vec<u8> = (0u8..17).collect();
    let digest: [u8; 32] = [
        206, 208, 205, 96, 159, 60, 143, 248, 91, 156, 236, 147, 187, 165, 86, 219, 227, 202, 169,
        150, 172, 91, 235, 98, 157, 69, 18, 71, 61, 107, 49, 174,
    ];
    assert_eq!(module.reportable_proposal_data(&call), ProposalData::Hash(digest));
}

#[test]
fn the_hash_is_blake2b_of_256_bits() {
    let module = Module::new(config(2));
    let digest: [u8; 32] = [
        189, 221, 129, 60, 99, 66, 57, 114, 49, 113, 239, 63, 238, 152, 87, 155, 148, 150, 78, 59,
        177, 203, 62, 66, 114, 98, 200, 192, 104, 213, 35, 25,
    ];
    assert_eq!(
        module.reportable_proposal_data(&b"abc".to_vec()),
        ProposalData::Hash(digest)
    );
}

#[test]
fn a_refund_reports_what_was_released() {
    let deposits = vec![deposit(1, 60), deposit(2, 20), deposit(3, 5)];
    assert_eq!(
        refund_event(4, &deposits, &vec![0, 0, 0]),
        Event::ProposalRefund(4, 85)
    );
    assert_eq!(
        refund_event(4, &deposits, &vec![10, 20, 7]),
        Event::ProposalRefund(4, 50)
    );
    assert_eq!(refund_event(9, &Vec::new(), &Vec::new()), Event::ProposalRefund(9, 0));
}

#[test]
fn a_refund_report_saturates() {
    let deposits = vec![deposit(1, Balance::MAX), deposit(2, 1)];
    assert_eq!(
        refund_event(0, &deposits, &vec![0, 0]),
        Event::ProposalRefund(0, Balance::MAX)
    );
}
