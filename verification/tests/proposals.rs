//! Proposals: making, changing and cancelling them.
use pips::store::Module;
use pips::types::{
    AccountId, Balance, Beneficiary, BlockNumber, Committee, Config, DepositInfo, DispatchError,
    DispatchResult, Effect, Error, Event, ForeignError, IdentityId, Origin, Payment, Pip,
    PipDescription, PipId, PipsMetadata, ProposalData, ProposalState, Url, Vote, VoteCount,
    VotingResult,
};

const COMMITTEE: Committee = Committee { members: 3, release_coordinator: None };

fn config() -> Config {
    Config {
        prune_historical_pips: false,
        min_proposal_deposit: 50,
        quorum_threshold: 70,
        proposal_cool_off_period: 10,
        proposal_duration: 20,
        default_enactment_period: 5,
        max_reporting_size: 16,
    }
}

fn account(key: u8) -> AccountId {
    AccountId([key; 32])
}

fn signed(key: u8) -> Origin {
    Origin {
        signer: Some(account(key)),
        committee: false,
        voting_majority: false,
        identity: Err(ForeignError(1)),
        committee_member: false,
    }
}

fn unsigned() -> Origin {
    Origin { signer: None, ..signed(0) }
}

fn committee() -> Origin {
    Origin { committee: true, ..unsigned() }
}

fn refused(e: Error) -> DispatchResult {
    Err(DispatchError::Module(e))
}

fn propose(module: &mut Module, key: u8, deposit: Balance) -> DispatchResult {
    module.propose(
        &signed(key),
        vec![1, 2, 3],
        deposit,
        Some(Url::from(b"www.abc.com")),
        Some(PipDescription::from(b"test proposal")),
        vec![Beneficiary { id: IdentityId([9; 32]), amount: 7 }],
        Payment::Settled,
    )
}

/// A module at the block `block`, with one proposal made at block 0 by account 1, with a deposit
/// of 60.
fn with_proposal(block: BlockNumber) -> Module {
    let mut module = Module::new(config());
    assert_eq!(propose(&mut module, 1, 60), Ok(()));
    module.take_effects();
    for n in 1..=block {
        assert_eq!(module.on_initialize(n, &COMMITTEE), Vec::new());
    }
    module
}

fn state(module: &Module, id: PipId) -> Option<ProposalState> {
    module.proposals(id).map(|pip| pip.state)
}

#[test]
fn a_proposal_is_recorded() {
    let mut module = Module::new(config());
    assert_eq!(module.propose_request(&signed(1), 60), Ok((account(1), 60)));
    assert!(module.proposal_fits());
    assert_eq!(propose(&mut module, 1, 60), Ok(()));
    assert_eq!(
        module.proposals(0),
        Some(&Pip { id: 0, proposal: vec![1, 2, 3], state: ProposalState::Pending })
    );
    assert_eq!(
        module.proposal_metadata(0),
        Some(&PipsMetadata {
            proposer: account(1),
            id: 0,
            end: 30,
            url: Some(Url::from(b"www.abc.com")),
            description: Some(PipDescription::from(b"test proposal")),
            cool_off_until: 10,
            beneficiaries: vec![Beneficiary { id: IdentityId([9; 32]), amount: 7 }],
        })
    );
    assert_eq!(module.deposits(0, account(1)), DepositInfo { owner: account(1), amount: 60 });
    assert_eq!(module.deposits(0, account(2)).amount, 0);
    assert_eq!(module.proposal_vote(0, account(1)), Vote::Yes(60));
    assert_eq!(
        module.proposal_result(0),
        VotingResult { ayes_count: 1, ayes_stake: 60, nays_count: 0, nays_stake: 0 }
    );
    assert_eq!(module.proposals_maturing_at(30), vec![0]);
    assert_eq!(module.pip_id_sequence(), 1);
    assert_eq!(
        module.take_effects(),
        vec![Effect::Deposit(Event::ProposalCreated(
            account(1),
            0,
            60,
            Some(Url::from(b"www.abc.com")),
            Some(PipDescription::from(b"test proposal")),
            10,
            30,
            ProposalData::Proposal(vec![1, 2, 3]),
        ))]
    );
    assert_eq!(module.take_effects(), Vec::new());
}

#[test]
fn a_large_proposal_is_created_with_its_hash() {
    let mut module = Module::new(config());
    let call: Vec<u8> = (0u8..17).collect();
    let made = module.propose(&signed(1), call.clone(), 60, None, None, vec![], Payment::Settled);
    assert_eq!(made, Ok(()));
    assert_eq!(module.proposals(0).unwrap().proposal, call);
    let digest: [u8; 32] = [
        206, 208, 205, 96, 159, 60, 143, 248, 91, 156, 236, 147, 187, 165, 86, 219, 227, 202, 169,
        150, 172, 91, 235, 98, 157, 69, 18, 71, 61, 107, 49, 174,
    ];
    assert_eq!(
        module.take_effects(),
        vec![Effect::Deposit(Event::ProposalCreated(
            account(1),
            0,
            60,
            None,
            None,
            10,
            30,
            ProposalData::Hash(digest),
        ))]
    );
}

#[test]
fn a_proposal_needs_the_minimum_deposit() {
    let mut module = Module::new(config());
    assert_eq!(
        module.propose_request(&signed(1), 49),
        Err(DispatchError::Module(Error::InsufficientDeposit))
    );
    assert_eq!(propose(&mut module, 1, 49), refused(Error::InsufficientDeposit));
    assert_eq!(module.pip_id_sequence(), 0);
    assert_eq!(propose(&mut module, 1, 50), Ok(()));
}

#[test]
fn a_proposal_needs_its_payments() {
    let mut module = Module::new(config());
    let declined =
        module.propose(&signed(1), vec![1], 60, None, None, vec![], Payment::Declined);
    assert_eq!(declined, refused(Error::InsufficientDeposit));
    let unpaid = module.propose(
        &signed(1),
        vec![1],
        60,
        None,
        None,
        vec![],
        Payment::FeeRefused(ForeignError(8)),
    );
    assert_eq!(unpaid, Err(DispatchError::Foreign(ForeignError(8))));
    let anonymous =
        module.propose(&unsigned(), vec![1], 60, None, None, vec![], Payment::Settled);
    assert_eq!(anonymous, Err(DispatchError::BadOrigin));
    assert_eq!(module.pip_id_sequence(), 0);
    assert!(module.proposals(0).is_none());
    assert_eq!(module.take_effects(), Vec::new());
}

#[test]
fn a_proposal_must_end_at_a_block_with_a_number() {
    let mut module = Module::new(Config {
        proposal_cool_off_period: BlockNumber::MAX,
        proposal_duration: 0,
        ..config()
    });
    assert!(module.proposal_fits());
    assert_eq!(module.set_proposal_duration(&committee(), 1), Ok(()));
    assert!(!module.proposal_fits());
}

#[test]
fn ids_count_up_and_are_not_reused() {
    let mut module = Module::new(Config { prune_historical_pips: true, ..config() });
    assert_eq!(propose(&mut module, 1, 60), Ok(()));
    assert_eq!(module.cancel_proposal(&signed(1), 0), Ok(()));
    assert!(module.proposals(0).is_none());
    assert_eq!(propose(&mut module, 2, 60), Ok(()));
    assert!(module.proposals(0).is_none());
    assert_eq!(module.proposal_metadata(1).unwrap().proposer, account(2));
    assert_eq!(module.pip_id_sequence(), 2);
}

#[test]
fn the_owner_amends_a_proposal() {
    let mut module = with_proposal(9);
    let amended = module.amend_proposal(
        &signed(1),
        0,
        Some(Url::from(b"www.xyz.com")),
        None,
    );
    assert_eq!(amended, Ok(()));
    let meta = module.proposal_metadata(0).unwrap();
    assert_eq!(meta.url, Some(Url::from(b"www.xyz.com")));
    assert_eq!(meta.description, None);
    assert_eq!(meta.proposer, account(1));
    assert_eq!((meta.cool_off_until, meta.end), (10, 30));
    assert_eq!(meta.beneficiaries.len(), 1);
    assert_eq!(
        module.take_effects(),
        vec![Effect::Deposit(Event::ProposalAmended(account(1), 0, true, 0))]
    );
}

#[test]
fn only_the_owner_changes_a_proposal() {
    let mut module = with_proposal(0);
    let bad_origin = refused(Error::BadOrigin);
    assert_eq!(module.amend_proposal(&signed(2), 0, None, None), bad_origin);
    assert_eq!(module.cancel_proposal(&signed(2), 0), bad_origin);
    assert_eq!(module.bond_additional_deposit(&signed(2), 0, 5, true), bad_origin);
    assert_eq!(module.unbond_deposit(&signed(2), 0, 5), bad_origin);
    let anonymous = Err(DispatchError::BadOrigin);
    assert_eq!(module.amend_proposal(&unsigned(), 0, None, None), anonymous);
    assert_eq!(module.cancel_proposal(&unsigned(), 0), anonymous);
    assert_eq!(module.bond_additional_deposit(&unsigned(), 0, 5, true), anonymous);
    assert_eq!(module.unbond_deposit(&unsigned(), 0, 5), anonymous);
    assert!(module.proposal_metadata(0).unwrap().url.is_some());
    assert_eq!(module.take_effects(), Vec::new());
}

#[test]
fn only_a_known_proposal_is_changed() {
    let mut module = with_proposal(0);
    let mismatched = refused(Error::MismatchedProposalId);
    assert_eq!(module.amend_proposal(&signed(1), 1, None, None), mismatched);
    assert_eq!(module.cancel_proposal(&signed(1), 1), mismatched);
    assert_eq!(module.bond_additional_deposit(&signed(1), 1, 5, true), mismatched);
    assert_eq!(module.unbond_deposit(&signed(1), 1, 5), mismatched);
}

#[test]
fn a_proposal_is_changed_during_its_cool_off_period_only() {
    let mut module = with_proposal(10);
    let immutable = refused(Error::ProposalIsImmutable);
    assert_eq!(module.amend_proposal(&signed(1), 0, None, None), immutable);
    assert_eq!(module.cancel_proposal(&signed(1), 0), immutable);
    assert_eq!(module.bond_additional_deposit(&signed(1), 0, 5, true), immutable);
    assert_eq!(module.unbond_deposit(&signed(1), 0, 5), immutable);
    assert_eq!(state(&module, 0), Some(ProposalState::Pending));
    assert!(module.proposal_metadata(0).unwrap().url.is_some());
}

#[test]
fn the_owner_cancels_a_proposal() {
    let mut module = with_proposal(9);
    assert_eq!(module.cancel_proposal(&signed(1), 0), Ok(()));
    assert_eq!(state(&module, 0), Some(ProposalState::Cancelled));
    assert_eq!(module.deposits(0, account(1)).amount, 0);
    assert_eq!(
        module.take_effects(),
        vec![
            Effect::Refund {
                id: 0,
                deposits: vec![DepositInfo { owner: account(1), amount: 60 }],
            },
            Effect::Deposit(Event::ProposalStateUpdated(0, ProposalState::Cancelled)),
            Effect::Deposit(Event::PipClosed(0, false)),
        ]
    );
    assert_eq!(module.cancel_proposal(&signed(1), 0), refused(Error::ProposalIsImmutable));
    assert_eq!(
        module.get_votes(0),
        VoteCount::Success { ayes: 60, nays: 0 }
    );
}

#[test]
fn pruning_removes_a_cancelled_proposal() {
    let mut module = with_proposal(0);
    assert_eq!(module.set_prune_historical_pips(&committee(), true), Ok(()));
    assert_eq!(module.cancel_proposal(&signed(1), 0), Ok(()));
    assert!(module.proposals(0).is_none());
    assert!(module.proposal_metadata(0).is_none());
    assert!(!module.has_proposal_result(0));
    assert_eq!(module.proposal_vote(0, account(1)), Vote::NotCast);
    assert_eq!(module.deposits(0, account(1)).amount, 0);
    assert_eq!(module.get_votes(0), VoteCount::ProposalNotFound);
    assert_eq!(module.proposed_by(account(1)), Vec::new());
    assert_eq!(
        module.take_effects().last(),
        Some(&Effect::Deposit(Event::PipClosed(0, true)))
    );
    assert_eq!(module.cancel_proposal(&signed(1), 0), refused(Error::MismatchedProposalId));
}

#[test]
fn bonding_adds_to_deposit_vote_and_tally() {
    let mut module = with_proposal(5);
    assert_eq!(module.bond_request(&signed(1), 0, 40), Ok((account(1), 40)));
    assert_eq!(module.bond_additional_deposit(&signed(1), 0, 40, true), Ok(()));
    assert_eq!(module.deposits(0, account(1)), DepositInfo { owner: account(1), amount: 100 });
    assert_eq!(module.proposal_vote(0, account(1)), Vote::Yes(100));
    assert_eq!(
        module.proposal_result(0),
        VotingResult { ayes_count: 1, ayes_stake: 100, nays_count: 0, nays_stake: 0 }
    );
    assert_eq!(
        module.take_effects(),
        vec![Effect::Deposit(Event::ProposalAmended(account(1), 0, true, 40))]
    );
}

#[test]
fn bonding_needs_a_reserve() {
    let mut module = with_proposal(5);
    assert_eq!(
        module.bond_additional_deposit(&signed(1), 0, 40, false),
        refused(Error::InsufficientDeposit)
    );
    assert_eq!(module.deposits(0, account(1)).amount, 60);
    assert_eq!(module.proposal_vote(0, account(1)), Vote::Yes(60));
}

#[test]
fn bonding_stops_at_the_largest_balance() {
    let mut module = with_proposal(5);
    let room = Balance::MAX - 60;
    assert_eq!(module.bond_request(&signed(1), 0, Balance::MAX), Ok((account(1), room)));
    assert_eq!(module.bond_additional_deposit(&signed(1), 0, Balance::MAX, true), Ok(()));
    assert_eq!(module.deposits(0, account(1)).amount, Balance::MAX);
    assert_eq!(module.proposal_result(0).ayes_stake, Balance::MAX);
    assert_eq!(
        module.take_effects(),
        vec![Effect::Deposit(Event::ProposalAmended(account(1), 0, true, room))]
    );
    assert_eq!(module.bond_request(&signed(1), 0, 1), Ok((account(1), 0)));
}

#[test]
fn unbonding_releases_a_part_of_the_deposit() {
    let mut module = with_proposal(5);
    assert_eq!(module.unbond_deposit(&signed(1), 0, 10), Ok(()));
    assert_eq!(module.deposits(0, account(1)), DepositInfo { owner: account(1), amount: 50 });
    assert_eq!(module.proposal_vote(0, account(1)), Vote::Yes(50));
    assert_eq!(module.proposal_result(0).ayes_stake, 50);
    assert_eq!(
        module.take_effects(),
        vec![
            Effect::Unreserve { who: account(1), amount: 10 },
            Effect::Deposit(Event::ProposalAmended(account(1), 0, false, 10)),
        ]
    );
}

#[test]
fn unbonding_leaves_the_minimum_deposit() {
    let mut module = with_proposal(5);
    let insufficient = refused(Error::InsufficientDeposit);
    assert_eq!(module.unbond_deposit(&signed(1), 0, 11), insufficient);
    assert_eq!(module.unbond_deposit(&signed(1), 0, 61), insufficient);
    assert_eq!(module.unbond_deposit(&signed(1), 0, Balance::MAX), insufficient);
    assert_eq!(module.deposits(0, account(1)).amount, 60);
    assert_eq!(module.take_effects(), Vec::new());
}

#[test]
fn unbonding_what_was_bonded_undoes_it() {
    let mut module = with_proposal(5);
    let before = (
        module.deposits(0, account(1)),
        module.proposal_vote(0, account(1)),
        module.proposal_result(0),
    );
    assert_eq!(module.bond_additional_deposit(&signed(1), 0, 40, true), Ok(()));
    assert_eq!(module.unbond_deposit(&signed(1), 0, 40), Ok(()));
    let after = (
        module.deposits(0, account(1)),
        module.proposal_vote(0, account(1)),
        module.proposal_result(0),
    );
    assert_eq!(before, after);
}

#[test]
fn the_committee_kills_a_proposal_at_any_time_before_it_is_decided() {
    for block in [0, 9, 10, 29] {
        let mut module = with_proposal(block);
        assert_eq!(module.kill_proposal(&signed(1), 0), refused(Error::BadOrigin));
        assert_eq!(module.kill_proposal(&committee(), 0), Ok(()));
        assert_eq!(state(&module, 0), Some(ProposalState::Killed));
        assert_eq!(module.deposits(0, account(1)).amount, 0);
        assert_eq!(
            module.take_effects(),
            vec![
                Effect::Refund {
                    id: 0,
                    deposits: vec![DepositInfo { owner: account(1), amount: 60 }],
                },
                Effect::Deposit(Event::ProposalStateUpdated(0, ProposalState::Killed)),
                Effect::Deposit(Event::PipClosed(0, false)),
            ]
        );
        assert_eq!(
            module.kill_proposal(&committee(), 0),
            refused(Error::ProposalIsImmutable)
        );
    }
}

#[test]
fn only_a_known_proposal_is_killed() {
    let mut module = with_proposal(0);
    assert_eq!(module.kill_proposal(&committee(), 1), refused(Error::NoSuchProposal));
}

#[test]
fn proposals_are_found_by_their_proposers() {
    let mut module = Module::new(config());
    for key in [1, 2, 1] {
        assert_eq!(propose(&mut module, key, 60), Ok(()));
    }
    let mut ids = module.proposed_by(account(1));
    ids.sort();
    assert_eq!(ids, vec![0, 2]);
    assert_eq!(module.proposed_by(account(2)), vec![1]);
    assert_eq!(module.proposed_by(account(3)), Vec::new());
}

#[test]
fn a_call_leaves_other_proposals_alone() {
    let mut module = with_proposal(0);
    assert_eq!(propose(&mut module, 2, 80), Ok(()));
    assert_eq!(module.cancel_proposal(&signed(2), 1), Ok(()));
    assert_eq!(state(&module, 0), Some(ProposalState::Pending));
    assert_eq!(state(&module, 1), Some(ProposalState::Cancelled));
    assert_eq!(module.deposits(0, account(1)).amount, 60);
    assert_eq!(module.proposal_result(0).ayes_stake, 60);
    assert_eq!(module.proposals_maturing_at(30), vec![0, 1]);
}

#[test]
fn proposals_of_either_sort_get_one_id_after_the_other() {
    let mut module = Module::new(Config { prune_historical_pips: true, ..config() });
    let member = Origin { identity: Ok(IdentityId([2; 32])), committee_member: true, ..signed(2) };
    for id in 0..6 {
        assert_eq!(module.pip_id_sequence(), id);
        let made = if id % 2 == 0 {
            propose(&mut module, 1, 60)
        } else {
            module.emergency_referendum(&member, vec![4], None, None, vec![], &COMMITTEE)
        };
        assert_eq!(made, Ok(()));
        // A refused proposal takes no id.
        assert_eq!(propose(&mut module, 1, 1), refused(Error::InsufficientDeposit));
        if id % 2 == 0 {
            assert_eq!(module.cancel_proposal(&signed(1), id), Ok(()));
        }
    }
    assert_eq!(module.pip_id_sequence(), 6);
}
