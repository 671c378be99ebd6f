//! The parameters of the module, which only the governance committee can change.
use pips::store::Module;
use pips::types::{AccountId, Config, DispatchError, Effect, Error, Event, ForeignError, Origin};

fn config() -> Config {
    Config {
        prune_historical_pips: false,
        min_proposal_deposit: 50,
        quorum_threshold: 70,
        proposal_cool_off_period: 10,
        proposal_duration: 20,
        default_enactment_period: 5,
        max_reporting_size: 16,
    }
}

fn signed(key: u8) -> Origin {
    Origin {
        signer: Some(AccountId([key; 32])),
        committee: false,
        voting_majority: false,
        identity: Err(ForeignError(1)),
        committee_member: false,
    }
}

fn committee() -> Origin {
    Origin {
        signer: None,
        committee: true,
        voting_majority: false,
        identity: Err(ForeignError(1)),
        committee_member: false,
    }
}

#[test]
fn a_new_module_has_its_parameters() {
    let mut module = Module::new(config());
    assert_eq!(module.config(), config());
    assert!(!module.prune_historical_pips());
    assert_eq!(module.min_proposal_deposit(), 50);
    assert_eq!(module.quorum_threshold(), 70);
    assert_eq!(module.proposal_cool_off_period(), 10);
    assert_eq!(module.proposal_duration(), 20);
    assert_eq!(module.default_enactment_period(), 5);
    assert_eq!(module.pip_id_sequence(), 0);
    assert_eq!(module.block_number(), 0);
    assert!(module.proposals(0).is_none());
    assert_eq!(module.take_effects(), Vec::new());
}

#[test]
fn the_committee_sets_each_parameter() {
    let mut module = Module::new(config());
    assert_eq!(module.set_prune_historical_pips(&committee(), true), Ok(()));
    assert_eq!(module.set_min_proposal_deposit(&committee(), 10), Ok(()));
    assert_eq!(module.set_quorum_threshold(&committee(), 20), Ok(()));
    assert_eq!(module.set_proposal_duration(&committee(), 30), Ok(()));
    assert_eq!(module.set_default_enact_period(&committee(), 40), Ok(()));
    assert_eq!(
        module.config(),
        Config {
            prune_historical_pips: true,
            min_proposal_deposit: 10,
            quorum_threshold: 20,
            proposal_cool_off_period: 10,
            proposal_duration: 30,
            default_enactment_period: 40,
            max_reporting_size: 16,
        }
    );
    assert_eq!(
        module.take_effects(),
        vec![
            Effect::Deposit(Event::PruningHistoricalPips(false, true)),
            Effect::Deposit(Event::MinimumProposalDepositChanged(50, 10)),
            Effect::Deposit(Event::QuorumThresholdChanged(70, 20)),
            Effect::Deposit(Event::ProposalDurationChanged(20, 30)),
            Effect::Deposit(Event::DefaultEnactmentPeriodChanged(5, 40)),
        ]
    );
}

#[test]
fn nobody_else_sets_a_parameter() {
    let mut module = Module::new(config());
    let refused = Err(DispatchError::Module(Error::BadOrigin));
    let majority = Origin { voting_majority: true, committee_member: true, ..signed(1) };
    for origin in [signed(1), majority] {
        assert_eq!(module.set_prune_historical_pips(&origin, true), refused);
        assert_eq!(module.set_min_proposal_deposit(&origin, 10), refused);
        assert_eq!(module.set_quorum_threshold(&origin, 20), refused);
        assert_eq!(module.set_proposal_duration(&origin, 30), refused);
        assert_eq!(module.set_default_enact_period(&origin, 40), refused);
    }
    assert_eq!(module.config(), config());
    assert_eq!(module.take_effects(), Vec::new());
}
