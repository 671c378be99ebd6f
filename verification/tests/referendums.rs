//! Referendums: how they come to be, are decided, scheduled and executed.
use pips::store::Module;
use pips::types::{
    AccountId, Balance, Beneficiary, BlockNumber, Committee, Config, DepositInfo, DispatchError,
    DispatchResult, Effect, Error, Event, ForeignError, IdentityId, Origin, Payment, PipId,
    ProposalData, ProposalState, Referendum, ReferendumState, ReferendumType, Url, Vote,
    VoteCount,
};

const COORDINATOR: IdentityId = IdentityId([50; 32]);

const COMMITTEE: Committee = Committee { members: 3, release_coordinator: Some(COORDINATOR) };

const SMALL_COMMITTEE: Committee = Committee { members: 1, release_coordinator: None };

fn config() -> Config {
    Config {
        prune_historical_pips: false,
        min_proposal_deposit: 50,
        quorum_threshold: 70,
        proposal_cool_off_period: 10,
        proposal_duration: 20,
        default_enactment_period: 5,
        max_reporting_size: 16,
    }
}

fn account(key: u8) -> AccountId {
    AccountId([key; 32])
}

fn signed(key: u8) -> Origin {
    Origin {
        signer: Some(account(key)),
        committee: false,
        voting_majority: false,
        identity: Ok(IdentityId([key; 32])),
        committee_member: false,
    }
}

fn member(key: u8) -> Origin {
    Origin { committee_member: true, ..signed(key) }
}

fn majority() -> Origin {
    Origin {
        signer: None,
        committee: false,
        voting_majority: true,
        identity: Err(ForeignError(1)),
        committee_member: false,
    }
}

fn coordinator() -> Origin {
    Origin { identity: Ok(COORDINATOR), ..signed(5) }
}

fn refused(e: Error) -> DispatchResult {
    Err(DispatchError::Module(e))
}

fn propose(module: &mut Module, key: u8, deposit: Balance) -> DispatchResult {
    module.propose(
        &signed(key),
        vec![1, 2, 3],
        deposit,
        None,
        None,
        vec![
            Beneficiary { id: IdentityId([8; 32]), amount: 7 },
            Beneficiary { id: IdentityId([9; 32]), amount: 11 },
        ],
        Payment::Settled,
    )
}

/// Builds the blocks after the current one, up to the block `block`, at none of which a referendum
/// is due.
fn advance(module: &mut Module, block: BlockNumber) {
    for n in module.block_number() + 1..=block {
        assert_eq!(module.on_initialize(n, &COMMITTEE), Vec::new());
    }
}

/// A module at block 30, with one proposal that the community has just accepted.
fn with_referendum(config: Config) -> Module {
    let mut module = Module::new(config);
    assert_eq!(propose(&mut module, 1, 80), Ok(()));
    advance(&mut module, 30);
    assert_eq!(referendum_state(&module, 0), Some(ReferendumState::Pending));
    module.take_effects();
    module
}

fn state(module: &Module, id: PipId) -> Option<ProposalState> {
    module.proposals(id).map(|pip| pip.state)
}

fn referendum_state(module: &Module, id: PipId) -> Option<ReferendumState> {
    module.referendums(id).map(|referendum| referendum.state)
}

#[test]
fn a_member_fast_tracks_a_proposal() {
    let mut module = Module::new(config());
    assert_eq!(propose(&mut module, 1, 60), Ok(()));
    module.take_effects();
    assert_eq!(module.fast_track_proposal(&member(2), 0, &COMMITTEE), Ok(()));
    assert_eq!(state(&module, 0), Some(ProposalState::Referendum));
    assert_eq!(
        module.referendums(0),
        Some(Referendum {
            id: 0,
            state: ReferendumState::Pending,
            referendum_type: ReferendumType::FastTracked,
            enactment_period: 0,
        })
    );
    assert_eq!(
        module.take_effects(),
        vec![
            Effect::Deposit(Event::ProposalStateUpdated(0, ProposalState::Referendum)),
            Effect::Deposit(Event::ReferendumCreated(0, ReferendumType::FastTracked)),
            Effect::Refund {
                id: 0,
                deposits: vec![DepositInfo { owner: account(1), amount: 60 }],
            },
        ]
    );
    assert_eq!(
        module.fast_track_proposal(&member(2), 0, &COMMITTEE),
        refused(Error::ProposalIsImmutable)
    );
    assert_eq!(
        module.fast_track_proposal(&member(2), 1, &COMMITTEE),
        refused(Error::MismatchedProposalId)
    );
    // The end of its voting finds nothing left to do.
    advance(&mut module, 30);
    assert_eq!(referendum_state(&module, 0), Some(ReferendumState::Pending));
    assert_eq!(module.take_effects(), Vec::new());
}

#[test]
fn only_a_member_fast_tracks_or_makes_a_referendum() {
    let mut module = Module::new(config());
    assert_eq!(propose(&mut module, 1, 60), Ok(()));
    let nobody = Origin { signer: None, ..member(2) };
    let unknown = Origin { identity: Err(ForeignError(6)), ..member(2) };
    for (origin, answer) in [
        (signed(2), refused(Error::NotACommitteeMember)),
        (nobody, Err(DispatchError::BadOrigin)),
        (unknown, Err(DispatchError::Foreign(ForeignError(6)))),
    ] {
        assert_eq!(module.fast_track_proposal(&origin, 0, &COMMITTEE), answer);
        let made = module.emergency_referendum(&origin, vec![4], None, None, vec![], &COMMITTEE);
        assert_eq!(made, answer);
    }
    assert_eq!(state(&module, 0), Some(ProposalState::Pending));
    assert_eq!(module.pip_id_sequence(), 1);
}

#[test]
fn a_member_makes_an_emergency_referendum() {
    let mut module = Module::new(config());
    let made = module.emergency_referendum(
        &member(2),
        vec![4, 5],
        Some(Url::from(b"www.abc.com")),
        None,
        vec![],
        &COMMITTEE,
    );
    assert_eq!(made, Ok(()));
    assert_eq!(state(&module, 0), Some(ProposalState::Referendum));
    let meta = module.proposal_metadata(0).unwrap();
    assert_eq!((meta.proposer, meta.cool_off_until, meta.end), (account(2), 0, 0));
    assert_eq!(
        module.referendums(0),
        Some(Referendum {
            id: 0,
            state: ReferendumState::Pending,
            referendum_type: ReferendumType::Emergency,
            enactment_period: 0,
        })
    );
    assert_eq!(module.get_votes(0), VoteCount::ProposalNotFound);
    assert_eq!(
        module.take_effects(),
        vec![
            Effect::Deposit(Event::ProposalCreated(
                account(2),
                0,
                0,
                Some(Url::from(b"www.abc.com")),
                None,
                0,
                0,
                ProposalData::Proposal(vec![4, 5]),
            )),
            Effect::Deposit(Event::ProposalStateUpdated(0, ProposalState::Referendum)),
            Effect::Deposit(Event::ReferendumCreated(0, ReferendumType::Emergency)),
        ]
    );
    assert_eq!(
        module.vote(&signed(3), 0, true, 5, true),
        refused(Error::ProposalIsImmutable)
    );
    assert_eq!(module.proposal_vote(0, account(2)), Vote::NotCast);
}

#[test]
fn a_small_committee_enacts_at_once() {
    let mut module = Module::new(config());
    assert!(module.enactment_fits());
    let made = module.emergency_referendum(
        &member(2),
        vec![4],
        None,
        None,
        vec![],
        &SMALL_COMMITTEE,
    );
    assert_eq!(made, Ok(()));
    assert_eq!(
        module.referendums(0),
        Some(Referendum {
            id: 0,
            state: ReferendumState::Scheduled,
            referendum_type: ReferendumType::Emergency,
            enactment_period: 5,
        })
    );
    assert_eq!(module.scheduled_referendums_at(5), vec![0]);
    assert_eq!(
        module.take_effects().last(),
        Some(&Effect::Deposit(Event::ReferendumScheduled(0, 0, 5)))
    );
}

#[test]
fn a_community_referendum_of_a_small_committee_is_due_after_its_enactment_period() {
    let mut module = Module::new(config());
    assert_eq!(propose(&mut module, 1, 80), Ok(()));
    for n in 1..=34 {
        assert_eq!(module.on_initialize(n, &SMALL_COMMITTEE), Vec::new());
    }
    assert_eq!(referendum_state(&module, 0), Some(ReferendumState::Scheduled));
    assert_eq!(module.on_initialize(35, &SMALL_COMMITTEE), vec![0]);
}

#[test]
fn without_an_enactment_period_an_accepted_proposal_is_due_at_once() {
    let mut module = Module::new(Config { default_enactment_period: 0, ..config() });
    assert_eq!(propose(&mut module, 1, 80), Ok(()));
    for n in 1..=29 {
        assert_eq!(module.on_initialize(n, &SMALL_COMMITTEE), Vec::new());
    }
    assert_eq!(module.on_initialize(30, &SMALL_COMMITTEE), vec![0]);
}

#[test]
fn the_majority_enacts_a_referendum() {
    let mut module = with_referendum(config());
    assert_eq!(module.enact_referendum(&member(2), 0), refused(Error::BadOrigin));
    assert_eq!(
        module.enact_referendum(&majority(), 1),
        refused(Error::MismatchedProposalId)
    );
    assert_eq!(module.enact_referendum(&majority(), 0), Ok(()));
    assert_eq!(
        module.referendums(0),
        Some(Referendum {
            id: 0,
            state: ReferendumState::Scheduled,
            referendum_type: ReferendumType::Community,
            enactment_period: 35,
        })
    );
    assert_eq!(module.scheduled_referendums_at(35), vec![0]);
    assert_eq!(
        module.take_effects(),
        vec![Effect::Deposit(Event::ReferendumScheduled(0, 0, 35))]
    );
    let immutable = refused(Error::ReferendumIsImmutable);
    assert_eq!(module.enact_referendum(&majority(), 0), immutable);
    assert_eq!(module.reject_referendum(&majority(), 0), immutable);
}

#[test]
fn the_majority_rejects_a_referendum() {
    let mut module = with_referendum(config());
    assert_eq!(module.reject_referendum(&signed(2), 0), refused(Error::BadOrigin));
    assert_eq!(
        module.reject_referendum(&majority(), 1),
        refused(Error::MismatchedProposalId)
    );
    assert_eq!(module.reject_referendum(&majority(), 0), Ok(()));
    assert_eq!(referendum_state(&module, 0), Some(ReferendumState::Rejected));
    assert_eq!(state(&module, 0), Some(ProposalState::Referendum));
    assert_eq!(
        module.take_effects(),
        vec![
            Effect::Deposit(Event::ReferendumStateUpdated(0, ReferendumState::Rejected)),
            Effect::Deposit(Event::PipClosed(0, false)),
        ]
    );
    assert_eq!(
        module.enact_referendum(&majority(), 0),
        refused(Error::ReferendumIsImmutable)
    );
}

#[test]
fn pruning_removes_a_rejected_referendum() {
    let mut module = with_referendum(Config { prune_historical_pips: true, ..config() });
    assert_eq!(module.reject_referendum(&majority(), 0), Ok(()));
    assert!(module.referendums(0).is_none());
    assert!(module.proposals(0).is_none());
    assert_eq!(
        module.reject_referendum(&majority(), 0),
        refused(Error::MismatchedProposalId)
    );
}

#[test]
fn the_coordinator_reschedules_a_referendum() {
    let mut module = with_referendum(config());
    assert_eq!(module.enact_referendum(&majority(), 0), Ok(()));
    module.take_effects();
    let moved =
        module.set_referendum_enactment_period(&coordinator(), 0, Some(50), &COMMITTEE);
    assert_eq!(moved, Ok(()));
    assert_eq!(module.referendums(0).unwrap().enactment_period, 50);
    assert_eq!(module.scheduled_referendums_at(35), Vec::new());
    assert_eq!(module.scheduled_referendums_at(50), vec![0]);
    let hastened = module.set_referendum_enactment_period(&coordinator(), 0, None, &COMMITTEE);
    assert_eq!(hastened, Ok(()));
    assert_eq!(module.referendums(0).unwrap().enactment_period, 31);
    assert_eq!(module.scheduled_referendums_at(50), Vec::new());
    assert_eq!(
        module.take_effects(),
        vec![
            Effect::Deposit(Event::ReferendumScheduled(0, 35, 50)),
            Effect::Deposit(Event::ReferendumScheduled(0, 50, 31)),
        ]
    );
    assert_eq!(module.on_initialize(31, &COMMITTEE), vec![0]);
}

#[test]
fn rescheduling_to_the_same_block_keeps_one_entry() {
    let mut module = with_referendum(config());
    assert_eq!(module.enact_referendum(&majority(), 0), Ok(()));
    let again = module.set_referendum_enactment_period(&coordinator(), 0, Some(35), &COMMITTEE);
    assert_eq!(again, Ok(()));
    assert_eq!(module.scheduled_referendums_at(35), vec![0]);
}

#[test]
fn rescheduling_leaves_other_referendums_in_place() {
    let mut module = Module::new(config());
    for _ in 0..3 {
        let made =
            module.emergency_referendum(&member(2), vec![4], None, None, vec![], &COMMITTEE);
        assert_eq!(made, Ok(()));
    }
    for id in 0..3 {
        assert_eq!(module.enact_referendum(&majority(), id), Ok(()));
    }
    let moved = module.set_referendum_enactment_period(&coordinator(), 1, Some(6), &COMMITTEE);
    assert_eq!(moved, Ok(()));
    assert_eq!(module.scheduled_referendums_at(5), vec![0, 2]);
    assert_eq!(module.scheduled_referendums_at(6), vec![1]);
}

#[test]
fn rescheduling_is_refused() {
    let mut module = with_referendum(config());
    let mut set = |origin: Origin, id: PipId, until: Option<BlockNumber>, group: Committee| {
        module.set_referendum_enactment_period(&origin, id, until, &group)
    };
    let nobody = Origin { signer: None, ..coordinator() };
    let unknown = Origin { identity: Err(ForeignError(6)), ..coordinator() };
    let no_coordinator = Committee { members: 3, release_coordinator: None };
    assert_eq!(set(nobody, 0, None, COMMITTEE), Err(DispatchError::BadOrigin));
    assert_eq!(
        set(unknown, 0, None, COMMITTEE),
        Err(DispatchError::Foreign(ForeignError(6)))
    );
    assert_eq!(set(member(2), 0, None, COMMITTEE), refused(Error::BadOrigin));
    assert_eq!(set(coordinator(), 0, None, no_coordinator), refused(Error::BadOrigin));
    assert_eq!(
        set(coordinator(), 0, Some(30), COMMITTEE),
        refused(Error::InvalidFutureBlockNumber)
    );
    assert_eq!(set(coordinator(), 1, Some(31), COMMITTEE), refused(Error::MismatchedProposalId));
    assert_eq!(
        set(coordinator(), 0, Some(31), COMMITTEE),
        refused(Error::ReferendumIsImmutable)
    );
    assert_eq!(module.take_effects(), Vec::new());
}

#[test]
fn a_referendum_is_executed_at_its_block() {
    let mut module = with_referendum(config());
    assert_eq!(module.enact_referendum(&majority(), 0), Ok(()));
    advance(&mut module, 34);
    module.take_effects();
    assert_eq!(module.on_initialize(35, &COMMITTEE), vec![0]);
    assert_eq!(module.scheduled_referendums_at(35), Vec::new());
    assert_eq!(module.execute_referendum(0), Some(vec![1, 2, 3]));
    module.complete_referendum(0, true);
    module.clear_schedule(35);
    assert_eq!(referendum_state(&module, 0), Some(ReferendumState::Executed));
    assert_eq!(
        module.take_effects(),
        vec![
            Effect::Deposit(Event::ReferendumStateUpdated(0, ReferendumState::Executed)),
            Effect::Disburse { to: IdentityId([8; 32]), amount: 7 },
            Effect::Disburse { to: IdentityId([9; 32]), amount: 11 },
            Effect::Deposit(Event::PipClosed(0, false)),
        ]
    );
    advance(&mut module, 40);
    assert_eq!(module.take_effects(), Vec::new());
}

#[test]
fn a_failed_execution_pays_nobody() {
    let mut module = with_referendum(config());
    assert_eq!(module.enact_referendum(&majority(), 0), Ok(()));
    advance(&mut module, 34);
    module.take_effects();
    assert_eq!(module.on_initialize(35, &COMMITTEE), vec![0]);
    module.complete_referendum(0, false);
    assert_eq!(referendum_state(&module, 0), Some(ReferendumState::Failed));
    assert_eq!(
        module.take_effects(),
        vec![
            Effect::Deposit(Event::ReferendumStateUpdated(0, ReferendumState::Failed)),
            Effect::Deposit(Event::PipClosed(0, false)),
        ]
    );
}

#[test]
fn pruning_removes_an_executed_referendum_once_its_beneficiaries_are_paid() {
    let mut module = with_referendum(Config { prune_historical_pips: true, ..config() });
    assert_eq!(module.enact_referendum(&majority(), 0), Ok(()));
    advance(&mut module, 34);
    module.take_effects();
    assert_eq!(module.on_initialize(35, &COMMITTEE), vec![0]);
    module.complete_referendum(0, true);
    assert!(module.referendums(0).is_none());
    assert!(module.proposals(0).is_none());
    assert!(module.proposal_metadata(0).is_none());
    assert_eq!(
        module.take_effects(),
        vec![
            Effect::Deposit(Event::ReferendumStateUpdated(0, ReferendumState::Executed)),
            Effect::Disburse { to: IdentityId([8; 32]), amount: 7 },
            Effect::Disburse { to: IdentityId([9; 32]), amount: 11 },
            Effect::Deposit(Event::PipClosed(0, true)),
        ]
    );
    assert_eq!(module.execute_referendum(0), None);
}

#[test]
fn only_a_proposal_at_the_referendum_stage_is_executed() {
    let mut module = Module::new(config());
    assert_eq!(module.execute_referendum(0), None);
    assert_eq!(propose(&mut module, 1, 60), Ok(()));
    assert_eq!(module.execute_referendum(0), None);
    assert_eq!(module.fast_track_proposal(&member(2), 0, &COMMITTEE), Ok(()));
    assert_eq!(module.execute_referendum(0), Some(vec![1, 2, 3]));
}

#[test]
fn the_schedule_of_a_block_can_be_cleared() {
    let mut module = with_referendum(config());
    assert_eq!(module.enact_referendum(&majority(), 0), Ok(()));
    module.clear_schedule(34);
    assert_eq!(module.scheduled_referendums_at(35), vec![0]);
    module.clear_schedule(35);
    assert_eq!(module.scheduled_referendums_at(35), Vec::new());
    assert_eq!(referendum_state(&module, 0), Some(ReferendumState::Scheduled));
}

#[test]
fn the_end_of_a_block_can_be_run_by_itself() {
    let mut module = Module::new(config());
    assert_eq!(propose(&mut module, 1, 80), Ok(()));
    assert_eq!(module.end_block(29, &COMMITTEE), Vec::new());
    assert_eq!(state(&module, 0), Some(ProposalState::Pending));
    assert_eq!(module.end_block(30, &COMMITTEE), Vec::new());
    assert_eq!(state(&module, 0), Some(ProposalState::Referendum));
    assert_eq!(module.block_number(), 0);
}

#[test]
fn an_enactment_must_end_at_a_block_with_a_number() {
    let module = Module::new(Config {
        default_enactment_period: BlockNumber::MAX,
        ..config()
    });
    assert!(module.enactment_fits());
    let mut later = module;
    assert_eq!(later.on_initialize(1, &COMMITTEE), Vec::new());
    assert!(!later.enactment_fits());
}

#[test]
fn a_block_fits_unless_it_enacts_beyond_the_last_block() {
    let mut module = Module::new(Config {
        default_enactment_period: BlockNumber::MAX - 29,
        ..config()
    });
    assert_eq!(propose(&mut module, 1, 80), Ok(()));
    assert!(module.block_fits(29, &SMALL_COMMITTEE));
    assert!(module.block_fits(30, &COMMITTEE));
    assert!(!module.block_fits(30, &SMALL_COMMITTEE));
    assert!(module.block_fits(31, &SMALL_COMMITTEE));
    // The block that is being built is still the first, so that the enactment would fit.
    assert!(module.end_block_fits(30, &SMALL_COMMITTEE));
    assert_eq!(module.on_initialize(29, &SMALL_COMMITTEE), Vec::new());
    assert!(module.end_block_fits(30, &SMALL_COMMITTEE));
    assert!(module.end_block_fits(30, &COMMITTEE));
    let committee = Origin { committee: true, ..signed(2) };
    assert_eq!(module.kill_proposal(&committee, 0), Ok(()));
    assert!(module.block_fits(30, &SMALL_COMMITTEE));
}

#[test]
fn a_rescheduled_referendum_is_handed_out_once_at_its_new_block() {
    for (until, new_block) in [(Some(33), 33), (Some(40), 40), (None, 31)] {
        let mut module = with_referendum(config());
        assert_eq!(module.enact_referendum(&majority(), 0), Ok(()));
        let moved = module.set_referendum_enactment_period(&coordinator(), 0, until, &COMMITTEE);
        assert_eq!(moved, Ok(()));
        for block in 31..60 {
            let due = module.on_initialize(block, &COMMITTEE);
            if block == new_block {
                assert_eq!(due, vec![0]);
                assert_eq!(module.execute_referendum(0), Some(vec![1, 2, 3]));
                module.complete_referendum(0, true);
            } else {
                assert_eq!(due, Vec::new());
            }
            module.clear_schedule(block);
        }
        assert_eq!(referendum_state(&module, 0), Some(ReferendumState::Executed));
    }
}
