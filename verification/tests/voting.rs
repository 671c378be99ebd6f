//! Voting, and what comes of it when it ends.
use pips::store::Module;
use pips::types::{
    AccountId, Balance, BlockNumber, Committee, Config, DepositInfo, DispatchError,
    DispatchResult, Effect, Error, Event, ForeignError, Origin, Payment, PipId, ProposalState,
    Referendum, ReferendumState, ReferendumType, Vote, VoteCount, VotingResult,
};

const COMMITTEE: Committee = Committee { members: 3, release_coordinator: None };

fn config() -> Config {
    Config {
        prune_historical_pips: false,
        min_proposal_deposit: 50,
        quorum_threshold: 70,
        proposal_cool_off_period: 10,
        proposal_duration: 20,
        default_enactment_period: 5,
        max_reporting_size: 16,
    }
}

fn account(key: u8) -> AccountId {
    AccountId([key; 32])
}

fn signed(key: u8) -> Origin {
    Origin {
        signer: Some(account(key)),
        committee: false,
        voting_majority: false,
        identity: Err(ForeignError(1)),
        committee_member: false,
    }
}

fn refused(e: Error) -> DispatchResult {
    Err(DispatchError::Module(e))
}

fn deposit(key: u8, amount: Balance) -> DepositInfo<AccountId, Balance> {
    DepositInfo { owner: account(key), amount }
}

fn propose(module: &mut Module, key: u8, deposit: Balance) -> DispatchResult {
    module.propose(&signed(key), vec![1, 2, 3], deposit, None, None, vec![], Payment::Settled)
}

/// Builds the blocks after the current one, up to the block `block`.
fn advance(module: &mut Module, block: BlockNumber) {
    for n in module.block_number() + 1..=block {
        assert_eq!(module.on_initialize(n, &COMMITTEE), Vec::new());
    }
}

/// A module at the block `block`, with one proposal made at block 0 by account 1, with a deposit
/// of 60.
fn with_proposal(config: Config, block: BlockNumber) -> Module {
    let mut module = Module::new(config);
    assert_eq!(propose(&mut module, 1, 60), Ok(()));
    advance(&mut module, block);
    module.take_effects();
    module
}

fn state(module: &Module, id: PipId) -> Option<ProposalState> {
    module.proposals(id).map(|pip| pip.state)
}

#[test]
fn a_vote_is_counted_and_locked() {
    let mut module = with_proposal(config(), 10);
    assert_eq!(module.vote_request(&signed(2), 0, 30), Ok((account(2), 30)));
    assert_eq!(module.vote(&signed(2), 0, true, 30, true), Ok(()));
    assert_eq!(module.vote(&signed(3), 0, false, 25, true), Ok(()));
    assert_eq!(module.vote(&signed(4), 0, false, 5, true), Ok(()));
    assert_eq!(
        module.proposal_result(0),
        VotingResult { ayes_count: 2, ayes_stake: 90, nays_count: 2, nays_stake: 30 }
    );
    assert_eq!(module.get_votes(0), VoteCount::Success { ayes: 90, nays: 30 });
    assert_eq!(module.proposal_vote(0, account(2)), Vote::Yes(30));
    assert_eq!(module.proposal_vote(0, account(3)), Vote::No(25));
    assert_eq!(module.proposal_vote(0, account(5)), Vote::NotCast);
    assert_eq!(module.deposits(0, account(3)), deposit(3, 25));
    let locked: Balance = (1..=5).map(|key| module.deposits(0, account(key)).amount).sum();
    assert_eq!(locked, 120);
    assert_eq!(
        module.take_effects(),
        vec![
            Effect::Deposit(Event::Voted(account(2), 0, true, 30)),
            Effect::Deposit(Event::Voted(account(3), 0, false, 25)),
            Effect::Deposit(Event::Voted(account(4), 0, false, 5)),
        ]
    );
}

#[test]
fn nobody_votes_during_the_cool_off_period() {
    let mut module = with_proposal(config(), 9);
    let on_cool_off = refused(Error::ProposalOnCoolOffPeriod);
    assert_eq!(module.vote(&signed(2), 0, true, 30, true), on_cool_off);
    assert_eq!(module.vote(&signed(1), 0, true, 30, true), on_cool_off);
    assert_eq!(module.amend_proposal(&signed(1), 0, None, None), Ok(()));
    advance(&mut module, 10);
    assert_eq!(
        module.amend_proposal(&signed(1), 0, None, None),
        refused(Error::ProposalIsImmutable)
    );
    assert_eq!(module.vote(&signed(2), 0, true, 30, true), Ok(()));
}

#[test]
fn nobody_votes_twice() {
    let mut module = with_proposal(config(), 10);
    let duplicate = refused(Error::DuplicateVote);
    assert_eq!(module.vote(&signed(2), 0, true, 30, true), Ok(()));
    assert_eq!(module.vote(&signed(2), 0, true, 30, true), duplicate);
    assert_eq!(module.vote(&signed(2), 0, false, 1, true), duplicate);
    // The owner has voted by making the proposal.
    assert_eq!(module.vote(&signed(1), 0, true, 30, true), duplicate);
    assert_eq!(
        module.vote_request(&signed(1), 0, 30),
        Err(DispatchError::Module(Error::DuplicateVote))
    );
    assert_eq!(module.proposal_result(0).ayes_count, 2);
}

#[test]
fn a_vote_of_nothing_is_a_vote() {
    let mut module = with_proposal(config(), 10);
    assert_eq!(module.vote(&signed(2), 0, false, 0, true), Ok(()));
    assert_eq!(module.proposal_vote(0, account(2)), Vote::No(0));
    assert_eq!(module.vote(&signed(2), 0, true, 30, true), refused(Error::DuplicateVote));
}

#[test]
fn a_vote_needs_a_signer_a_proposal_and_a_reserve() {
    let mut module = with_proposal(config(), 10);
    let unsigned = Origin { signer: None, ..signed(2) };
    assert_eq!(module.vote(&unsigned, 0, true, 30, true), Err(DispatchError::BadOrigin));
    assert_eq!(
        module.vote(&signed(2), 1, true, 30, true),
        refused(Error::MismatchedProposalId)
    );
    assert_eq!(
        module.vote(&signed(2), 0, true, 30, false),
        refused(Error::InsufficientDeposit)
    );
    assert_eq!(module.proposal_result(0).ayes_count, 1);
    assert_eq!(module.take_effects(), Vec::new());
}

#[test]
fn a_vote_that_the_tally_has_no_room_for_is_undone() {
    let mut module = with_proposal(config(), 10);
    assert_eq!(
        module.vote(&signed(2), 0, true, Balance::MAX - 59, true),
        refused(Error::StakeAmountOfVotesExceeded)
    );
    assert_eq!(
        module.take_effects(),
        vec![Effect::Unreserve { who: account(2), amount: Balance::MAX - 59 }]
    );
    assert_eq!(module.proposal_vote(0, account(2)), Vote::NotCast);
    assert_eq!(module.deposits(0, account(2)).amount, 0);
    assert_eq!(module.proposal_result(0).ayes_stake, 60);
    assert_eq!(module.vote(&signed(2), 0, true, Balance::MAX - 60, true), Ok(()));
    assert_eq!(module.proposal_result(0).ayes_stake, Balance::MAX);
}

#[test]
fn proposals_are_found_by_their_voters() {
    let mut module = Module::new(config());
    for key in [1, 2, 3] {
        assert_eq!(propose(&mut module, key, 60), Ok(()));
    }
    advance(&mut module, 10);
    assert_eq!(module.vote(&signed(4), 0, true, 5, true), Ok(()));
    assert_eq!(module.vote(&signed(4), 2, false, 5, true), Ok(()));
    let mut ids = module.voted_on(account(4));
    ids.sort();
    assert_eq!(ids, vec![0, 2]);
    assert_eq!(module.voted_on(account(2)), vec![1]);
    assert_eq!(module.voted_on(account(5)), Vec::new());
}

#[test]
fn an_accepted_proposal_becomes_a_referendum() {
    let mut module = with_proposal(config(), 10);
    assert_eq!(module.vote(&signed(2), 0, true, 10, true), Ok(()));
    assert_eq!(module.vote(&signed(3), 0, false, 69, true), Ok(()));
    advance(&mut module, 29);
    assert_eq!(state(&module, 0), Some(ProposalState::Pending));
    module.take_effects();
    advance(&mut module, 30);
    assert_eq!(state(&module, 0), Some(ProposalState::Referendum));
    assert_eq!(
        module.referendums(0),
        Some(Referendum {
            id: 0,
            state: ReferendumState::Pending,
            referendum_type: ReferendumType::Community,
            enactment_period: 0,
        })
    );
    assert_eq!(module.deposits(0, account(2)).amount, 0);
    assert_eq!(module.proposals_maturing_at(30), Vec::new());
    assert_eq!(
        module.take_effects(),
        vec![
            Effect::Refund {
                id: 0,
                deposits: vec![deposit(1, 60), deposit(2, 10), deposit(3, 69)],
            },
            Effect::Deposit(Event::ProposalStateUpdated(0, ProposalState::Referendum)),
            Effect::Deposit(Event::ReferendumCreated(0, ReferendumType::Community)),
        ]
    );
}

#[test]
fn a_proposal_below_the_quorum_is_rejected() {
    let mut module = with_proposal(config(), 10);
    assert_eq!(module.vote(&signed(2), 0, true, 9, true), Ok(()));
    module.take_effects();
    advance(&mut module, 30);
    assert_eq!(state(&module, 0), Some(ProposalState::Rejected));
    assert!(module.referendums(0).is_none());
    assert_eq!(
        module.take_effects(),
        vec![
            Effect::Deposit(Event::ProposalStateUpdated(0, ProposalState::Rejected)),
            Effect::Refund { id: 0, deposits: vec![deposit(1, 60), deposit(2, 9)] },
            Effect::Deposit(Event::PipClosed(0, false)),
        ]
    );
}

#[test]
fn the_quorum_is_reached_by_as_much_stake() {
    let mut module = with_proposal(config(), 10);
    assert_eq!(module.vote(&signed(2), 0, true, 10, true), Ok(()));
    advance(&mut module, 30);
    assert_eq!(state(&module, 0), Some(ProposalState::Referendum));
}

#[test]
fn a_tie_is_rejected() {
    let mut module = with_proposal(config(), 10);
    assert_eq!(module.vote(&signed(2), 0, true, 20, true), Ok(()));
    assert_eq!(module.vote(&signed(3), 0, false, 80, true), Ok(()));
    advance(&mut module, 30);
    assert_eq!(state(&module, 0), Some(ProposalState::Rejected));
}

#[test]
fn stake_decides_and_not_the_number_of_votes() {
    let mut module = with_proposal(config(), 10);
    assert_eq!(module.vote(&signed(2), 0, true, 40, true), Ok(()));
    for key in 3..=8 {
        assert_eq!(module.vote(&signed(key), 0, false, 16, true), Ok(()));
    }
    assert_eq!(
        module.proposal_result(0),
        VotingResult { ayes_count: 2, ayes_stake: 100, nays_count: 6, nays_stake: 96 }
    );
    advance(&mut module, 30);
    assert_eq!(state(&module, 0), Some(ProposalState::Referendum));
}

#[test]
fn nobody_votes_after_the_end() {
    let mut module = with_proposal(config(), 30);
    assert_eq!(state(&module, 0), Some(ProposalState::Rejected));
    for block in [30, 31, 40] {
        advance(&mut module, block);
        assert_eq!(
            module.vote(&signed(2), 0, true, 30, true),
            refused(Error::ProposalIsImmutable)
        );
        assert_eq!(
            module.cancel_proposal(&signed(1), 0),
            refused(Error::ProposalIsImmutable)
        );
    }
}

#[test]
fn pruning_removes_a_rejected_proposal() {
    let mut module = with_proposal(Config { prune_historical_pips: true, ..config() }, 10);
    assert_eq!(module.vote(&signed(2), 0, false, 5, true), Ok(()));
    advance(&mut module, 30);
    assert!(module.proposals(0).is_none());
    assert!(module.proposal_metadata(0).is_none());
    assert_eq!(module.proposal_vote(0, account(2)), Vote::NotCast);
    assert_eq!(module.get_votes(0), VoteCount::ProposalNotFound);
    assert_eq!(
        module.vote(&signed(3), 0, true, 30, true),
        refused(Error::MismatchedProposalId)
    );
}

#[test]
fn a_decided_proposal_is_left_alone_when_its_voting_would_end() {
    let mut module = with_proposal(config(), 5);
    assert_eq!(module.cancel_proposal(&signed(1), 0), Ok(()));
    module.take_effects();
    advance(&mut module, 30);
    assert_eq!(state(&module, 0), Some(ProposalState::Cancelled));
    assert_eq!(module.take_effects(), Vec::new());
}

#[test]
fn the_voting_on_several_proposals_ends_at_one_block() {
    let mut module = Module::new(config());
    assert_eq!(propose(&mut module, 1, 60), Ok(()));
    assert_eq!(propose(&mut module, 2, 70), Ok(()));
    advance(&mut module, 1);
    assert_eq!(propose(&mut module, 3, 90), Ok(()));
    assert_eq!(module.proposals_maturing_at(30), vec![0, 1]);
    assert_eq!(module.proposals_maturing_at(31), vec![2]);
    advance(&mut module, 30);
    assert_eq!(state(&module, 0), Some(ProposalState::Rejected));
    assert_eq!(state(&module, 1), Some(ProposalState::Referendum));
    assert_eq!(state(&module, 2), Some(ProposalState::Pending));
    assert_eq!(module.deposits(2, account(3)).amount, 90);
    advance(&mut module, 31);
    assert_eq!(state(&module, 2), Some(ProposalState::Referendum));
}

#[test]
fn a_new_quorum_holds_for_ballots_under_way() {
    let mut module = with_proposal(config(), 10);
    let committee = Origin { committee: true, ..signed(9) };
    assert_eq!(module.set_quorum_threshold(&committee, 60), Ok(()));
    advance(&mut module, 30);
    assert_eq!(state(&module, 0), Some(ProposalState::Referendum));
}

#[test]
fn a_ballot_runs_as_long_as_it_had_to_when_it_was_made() {
    let mut module = with_proposal(config(), 0);
    let committee = Origin { committee: true, ..signed(9) };
    assert_eq!(module.set_proposal_duration(&committee, 3), Ok(()));
    for block in 1..30 {
        advance(&mut module, block);
        assert_eq!(state(&module, 0), Some(ProposalState::Pending));
        assert_eq!(module.kill_proposal(&signed(2), 0), refused(Error::BadOrigin));
    }
    for block in 30..60 {
        advance(&mut module, block);
        assert_eq!(state(&module, 0), Some(ProposalState::Rejected));
    }
}

/// What becomes of a proposal with the stake `ayes` for it and `nays` against it, at a quorum of
/// `quorum`.
fn verdict(ayes: Balance, nays: Balance, quorum: Balance) -> Option<ProposalState> {
    let mut module = with_proposal(Config { quorum_threshold: quorum, ..config() }, 10);
    assert_eq!(module.vote(&signed(2), 0, true, ayes - 60, true), Ok(()));
    assert_eq!(module.vote(&signed(3), 0, false, nays, true), Ok(()));
    advance(&mut module, 30);
    state(&module, 0)
}

#[test]
fn support_and_a_lower_quorum_never_hurt() {
    assert_eq!(verdict(69, 68, 70), Some(ProposalState::Rejected));
    assert_eq!(verdict(70, 69, 70), Some(ProposalState::Referendum));
    assert_eq!(verdict(71, 69, 70), Some(ProposalState::Referendum));
    assert_eq!(verdict(70, 68, 70), Some(ProposalState::Referendum));
    assert_eq!(verdict(70, 69, 69), Some(ProposalState::Referendum));
    assert_eq!(verdict(Balance::MAX, 0, 0), Some(ProposalState::Referendum));
}
