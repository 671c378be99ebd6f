//! The state as plain values, and its way back.
use pips::snapshot::Snapshot;
use pips::store::Module;
use pips::types::{
    AccountId, Balance, Beneficiary, Committee, Config, DepositInfo, Effect, Event, ForeignError,
    IdentityId, Origin, Payment, PipId, ProposalState, ReferendumState, Url, Vote, VoteCount,
};

const COMMITTEE: Committee = Committee { members: 3, release_coordinator: None };

fn config() -> Config {
    Config {
        prune_historical_pips: false,
        min_proposal_deposit: 50,
        quorum_threshold: 70,
        proposal_cool_off_period: 10,
        proposal_duration: 20,
        default_enactment_period: 5,
        max_reporting_size: 16,
    }
}

fn account(key: u8) -> AccountId {
    AccountId([key; 32])
}

fn signed(key: u8) -> Origin {
    Origin {
        signer: Some(account(key)),
        committee: false,
        voting_majority: false,
        identity: Err(ForeignError(1)),
        committee_member: false,
    }
}

fn majority() -> Origin {
    Origin { signer: None, voting_majority: true, ..signed(0) }
}

fn propose(module: &mut Module, key: u8, deposit: Balance) {
    let made = module.propose(
        &signed(key),
        vec![1, 2, 3],
        deposit,
        Some(Url::from(b"www.abc.com")),
        None,
        vec![Beneficiary { id: IdentityId([9; 32]), amount: 7 }],
        Payment::Settled,
    );
    assert_eq!(made, Ok(()));
}

/// A module at block 32: proposal 0 is a scheduled referendum, proposal 1 is rejected, proposal 2
/// is open to votes and has one for and one against it, and proposal 3 is in its cool-off period.
fn module() -> Module {
    let mut module = Module::new(config());
    propose(&mut module, 1, 80);
    propose(&mut module, 2, 60);
    for n in 1..=32 {
        assert_eq!(module.on_initialize(n, &COMMITTEE), Vec::new());
        if n == 15 {
            propose(&mut module, 3, 55);
        }
    }
    assert_eq!(module.enact_referendum(&majority(), 0), Ok(()));
    assert_eq!(module.vote(&signed(4), 2, false, 21, true), Ok(()));
    propose(&mut module, 5, 100);
    module
}

fn snapshot() -> Snapshot {
    module().into_snapshot()
}

fn accepted(snapshot: Snapshot) -> bool {
    Module::from_snapshot(snapshot).is_some()
}

/// The entry with the key `id`.
fn entry<V>(entries: &mut Vec<(PipId, V)>, id: PipId) -> &mut V {
    match entries.iter_mut().find(|e| e.0 == id) {
        Some(e) => &mut e.1,
        None => panic!("no entry {}", id),
    }
}

/// Drops the entry with the key `id`.
fn without<V>(entries: Vec<(PipId, V)>, id: PipId) -> Vec<(PipId, V)> {
    entries.into_iter().filter(|e| e.0 != id).collect()
}

#[test]
fn a_module_comes_back_as_it_was() {
    let written = snapshot();
    let read = Module::from_snapshot(written.clone()).unwrap();
    assert_eq!(read.block_number(), 32);
    assert_eq!(read.config(), config());
    assert_eq!(read.pip_id_sequence(), 4);
    assert_eq!(read.proposals(0).unwrap().state, ProposalState::Referendum);
    assert_eq!(read.referendums(0).unwrap().state, ReferendumState::Scheduled);
    assert_eq!(read.scheduled_referendums_at(37), vec![0]);
    assert_eq!(read.proposals(1).unwrap().state, ProposalState::Rejected);
    assert_eq!(read.get_votes(2), VoteCount::Success { ayes: 55, nays: 21 });
    assert_eq!(read.proposal_vote(2, account(4)), Vote::No(21));
    assert_eq!(read.deposits(2, account(4)), DepositInfo { owner: account(4), amount: 21 });
    assert_eq!(read.proposals_maturing_at(45), vec![2]);
    assert_eq!(read.proposal_metadata(3).unwrap().url, Some(Url::from(b"www.abc.com")));
    assert_eq!(read.into_snapshot(), written);
}

#[test]
fn a_module_that_came_back_goes_on() {
    let mut kept = module();
    let mut read = Module::from_snapshot(snapshot()).unwrap();
    assert_eq!(read.take_effects(), kept.take_effects());
    for n in 33..=60 {
        let due = kept.on_initialize(n, &COMMITTEE);
        assert_eq!(read.on_initialize(n, &COMMITTEE), due);
        for id in due {
            kept.complete_referendum(id, true);
            read.complete_referendum(id, true);
        }
        assert_eq!(read.take_effects(), kept.take_effects());
        let stored = read.into_snapshot();
        read = Module::from_snapshot(stored).unwrap();
    }
    assert_eq!(read.into_snapshot(), kept.into_snapshot());
}

#[test]
fn effects_are_part_of_a_snapshot() {
    let mut written = Module::new(config()).into_snapshot();
    assert_eq!(written.effects, Vec::new());
    let effect = Effect::Deposit(Event::PipClosed(1, true));
    written.effects.push(effect.clone());
    let mut read = Module::from_snapshot(written).unwrap();
    assert_eq!(read.take_effects(), vec![effect]);
}

#[test]
fn the_last_entry_of_a_key_counts() {
    let mut twice = snapshot();
    let mut later = twice.proposal_metadata[0].clone();
    later.1.url = None;
    let id = later.0;
    twice.proposal_metadata.push(later);
    let read = Module::from_snapshot(twice).unwrap();
    assert_eq!(read.proposal_metadata(id).unwrap().url, None);
    assert_eq!(read.into_snapshot().proposal_metadata.len(), 4);
}

#[test]
fn a_proposal_needs_metadata_and_metadata_a_proposal() {
    let mut s = snapshot();
    s.proposal_metadata = without(s.proposal_metadata, 1);
    assert!(!accepted(s));
    let mut s = snapshot();
    s.proposals = without(s.proposals, 1);
    assert!(!accepted(s));
}

#[test]
fn ids_must_fit() {
    let mut s = snapshot();
    s.pip_id_sequence = 3;
    assert!(!accepted(s));
    let mut s = snapshot();
    entry(&mut s.proposals, 1).id = 0;
    assert!(!accepted(s));
    let mut s = snapshot();
    entry(&mut s.proposal_metadata, 1).id = 0;
    assert!(!accepted(s));
    let mut s = snapshot();
    entry(&mut s.referendums, 0).id = 1;
    assert!(!accepted(s));
}

#[test]
fn exactly_the_proposals_at_the_referendum_stage_need_a_referendum() {
    let mut s = snapshot();
    s.referendums = without(s.referendums, 0);
    assert!(!accepted(s));
    let mut s = snapshot();
    let referendum = *entry(&mut s.referendums, 0);
    s.referendums.push((1, pips::types::Referendum { id: 1, ..referendum }));
    assert!(!accepted(s));
}

#[test]
fn exactly_pending_proposals_need_deposits() {
    let mut s = snapshot();
    s.deposits = without(s.deposits, 2);
    assert!(!accepted(s));
    let mut s = snapshot();
    s.deposits.push((1, Vec::new()));
    assert!(!accepted(s));
    let mut s = snapshot();
    s.deposits.push((9, Vec::new()));
    assert!(!accepted(s));
}

#[test]
fn the_tally_must_be_that_of_the_votes() {
    let mut s = snapshot();
    entry(&mut s.proposal_result, 1).ayes_stake += 1;
    assert!(!accepted(s));
    let mut s = snapshot();
    entry(&mut s.proposal_result, 2).nays_count += 1;
    assert!(!accepted(s));
    let mut s = snapshot();
    s.proposal_result = without(s.proposal_result, 1);
    assert!(!accepted(s));
    let mut s = snapshot();
    s.proposal_votes = without(s.proposal_votes, 1);
    assert!(!accepted(s));
    // Votes that no tally can count.
    let mut s = snapshot();
    entry(&mut s.proposal_votes, 1).push((account(9), Vote::Yes(Balance::MAX)));
    assert!(!accepted(s));
}

#[test]
fn no_account_may_have_two_votes() {
    let mut s = snapshot();
    entry(&mut s.proposal_votes, 1).push((account(2), Vote::No(0)));
    entry(&mut s.proposal_result, 1).nays_count += 1;
    assert!(!accepted(s));
    let mut s = snapshot();
    entry(&mut s.proposal_votes, 1).push((account(3), Vote::No(0)));
    entry(&mut s.proposal_result, 1).nays_count += 1;
    assert!(accepted(s));
}

#[test]
fn votes_must_be_backed() {
    let mut s = snapshot();
    entry(&mut s.deposits, 2)[1].1.amount = 20;
    assert!(!accepted(s));
    let mut s = snapshot();
    entry(&mut s.deposits, 2)[1].1.owner = account(9);
    assert!(!accepted(s));
    let mut s = snapshot();
    entry(&mut s.deposits, 2).pop();
    assert!(!accepted(s));
}

#[test]
fn the_owner_must_have_voted_first() {
    let mut s = snapshot();
    entry(&mut s.proposal_metadata, 2).proposer = account(4);
    assert!(!accepted(s));
    let mut s = snapshot();
    entry(&mut s.proposal_votes, 3)[0].1 = Vote::No(100);
    *entry(&mut s.proposal_result, 3) = pips::types::VotingResult {
        ayes_count: 0,
        ayes_stake: 0,
        nays_count: 1,
        nays_stake: 100,
    };
    assert!(!accepted(s));
}

#[test]
fn nobody_else_may_have_voted_in_the_cool_off_period() {
    let mut s = snapshot();
    entry(&mut s.proposal_metadata, 2).cool_off_until = 33;
    assert!(!accepted(s));
    let mut s = snapshot();
    entry(&mut s.proposal_metadata, 2).cool_off_until = 32;
    assert!(accepted(s));
}

#[test]
fn proposals_must_be_listed_where_their_voting_ends() {
    let mut s = snapshot();
    s.proposals_maturing_at = without(s.proposals_maturing_at, 45);
    assert!(!accepted(s));
    let mut s = snapshot();
    s.proposals_maturing_at.push((46, vec![2]));
    assert!(!accepted(s));
    let mut s = snapshot();
    s.proposals_maturing_at.push((46, vec![4]));
    assert!(!accepted(s));
}
