//! The state of the module as a mathematical value, and what each call makes of it.
use crate::hashing::blake_two_256;
use crate::ledger::{distinct, lookup, put};
use crate::table::seq_at;
use crate::tally::{counted, tallied, Ballots};
use crate::types::{
    no_votes, AccountId, Balance, Beneficiary, BlockNumber, Config, Deposit, DepositInfo,
    DispatchError, DispatchResult, EffectView, Error, EventView, IdentityId, MetadataView, Origin,
    Payment, PipId, PipView, ProposalDataView, ProposalState, Referendum, ReferendumState,
    ReferendumType, Vote, VotingResult,
};
use vstd::prelude::*;

verus! {

/// The deposits on a proposal, each with the account that it is filed under.
pub type Deposits = Seq<(AccountId, Deposit)>;

/// A refusal by the module.
pub open spec fn refused(e: Error) -> DispatchResult {
    Err(DispatchError::Module(e))
}

/// The bare deposits of a list of deposits.
pub open spec fn deposits_in(s: Deposits) -> Seq<Deposit> {
    s.map_values(|entry: (AccountId, Deposit)| entry.1)
}

/// The payments that beneficiaries are owed.
pub open spec fn payments_to(s: Seq<Beneficiary<Balance>>) -> Seq<EffectView> {
    s.map_values(|b: Beneficiary<Balance>| EffectView::Disburse { to: b.id, amount: b.amount })
}

/// How an encoded proposal is reported: whole, or by its hash where it is longer than `limit`.
pub open spec fn reported(call: Seq<u8>, limit: usize) -> ProposalDataView {
    if call.len() > limit {
        ProposalDataView::Hash(blake_two_256(call))
    } else {
        ProposalDataView::Proposal(call)
    }
}

/// The vote that a stake for (`aye`) or against a proposal is.
pub open spec fn ballot(aye: bool, stake: Balance) -> Vote<Balance> {
    if aye {
        Vote::Yes(stake)
    } else {
        Vote::No(stake)
    }
}

/// What can be added to the amount `held` of the amount `more` without an overflow.
pub open spec fn room(held: Balance, more: Balance) -> Balance {
    if held + more > Balance::MAX {
        (Balance::MAX - held) as Balance
    } else {
        more
    }
}

/// Tells the other ids from the id `id`.
pub open spec fn other_than(id: PipId) -> spec_fn(PipId) -> bool {
    |other: PipId| other != id
}

/// Whether deposits and votes belong to each other: the same accounts in the same order, each
/// deposit owned by its account and as large as the stake of the vote.
pub open spec fn matched(deposits: Deposits, votes: Ballots) -> bool {
    &&& deposits.len() == votes.len()
    &&& forall|i: int|
        0 <= i < votes.len() ==> {
            &&& (#[trigger] deposits[i]).0 == votes[i].0
            &&& deposits[i].1.owner == deposits[i].0
            &&& votes[i].1 == Vote::Yes(deposits[i].1.amount) || votes[i].1 == Vote::No(
                deposits[i].1.amount,
            )
        }
}

/// The state of the module.
#[verifier::ext_equal]
pub struct State {
    /// The block that is being built.
    pub block_number: BlockNumber,
    /// The parameters.
    pub config: Config,
    /// Proposals so far. The next proposal gets this id.
    pub pip_id_sequence: u32,
    /// The metadata of the proposals.
    pub proposal_metadata: Map<PipId, MetadataView>,
    /// The proposals whose voting ends at a block.
    pub proposals_maturing_at: Map<BlockNumber, Seq<PipId>>,
    /// Those who have locked a deposit on a proposal.
    pub deposits: Map<PipId, Deposits>,
    /// The proposals.
    pub proposals: Map<PipId, PipView>,
    /// The tallies of the proposals.
    pub proposal_result: Map<PipId, VotingResult<Balance>>,
    /// The votes on the proposals.
    pub proposal_votes: Map<PipId, Ballots>,
    /// The referendums.
    pub referendums: Map<PipId, Referendum>,
    /// The referendums that are to be executed at a block.
    pub scheduled_referendums_at: Map<BlockNumber, Seq<PipId>>,
    /// The work left to the rest of the runtime.
    pub outbox: Seq<EffectView>,
}

// What the state says.
impl State {
    /// The state before the first block.
    pub open spec fn genesis(config: Config) -> State {
        State {
            block_number: 0,
            config,
            pip_id_sequence: 0,
            proposal_metadata: Map::empty(),
            proposals_maturing_at: Map::empty(),
            deposits: Map::empty(),
            proposals: Map::empty(),
            proposal_result: Map::empty(),
            proposal_votes: Map::empty(),
            referendums: Map::empty(),
            scheduled_referendums_at: Map::empty(),
            outbox: Seq::empty(),
        }
    }

    /// Whether `id` is a proposal in the state `state`.
    pub open spec fn in_state(self, id: PipId, state: ProposalState) -> bool {
        self.proposals.contains_key(id) && self.proposals[id].state == state
    }

    /// Whether `id` is a proposal that is not decided yet.
    pub open spec fn pending(self, id: PipId) -> bool {
        self.in_state(id, ProposalState::Pending)
    }

    /// The amount that `who` has locked on the proposal `id`.
    pub open spec fn deposit_of(self, id: PipId, who: AccountId) -> Balance {
        match lookup(seq_at(self.deposits, id), who) {
            Some(deposit) => deposit.amount,
            None => 0,
        }
    }

    /// The vote of `who` on the proposal `id`.
    pub open spec fn vote_of(self, id: PipId, who: AccountId) -> Vote<Balance> {
        match lookup(seq_at(self.proposal_votes, id), who) {
            Some(vote) => vote,
            None => Vote::NotCast,
        }
    }

    /// The tally of the proposal `id`.
    pub open spec fn result_of(self, id: PipId) -> VotingResult<Balance> {
        if self.proposal_result.contains_key(id) {
            self.proposal_result[id]
        } else {
            no_votes()
        }
    }

    /// Whether the community has accepted the proposal `id`: the stake for it is larger than the
    /// stake against it (simple majority), and reaches the quorum threshold.
    pub open spec fn accepted(self, id: PipId) -> bool {
        let voting = self.result_of(id);
        voting.ayes_stake > voting.nays_stake && voting.ayes_stake >= self.config.quorum_threshold
    }

    /// Whether the block at which a referendum enacted now is executed has a number.
    pub open spec fn enactment_fits(self) -> bool {
        self.block_number + self.config.default_enactment_period <= BlockNumber::MAX
    }

    /// Whether a proposal made now has an id, and the block at which its voting ends has a number.
    pub open spec fn proposal_fits(self) -> bool {
        &&& self.pip_id_sequence < u32::MAX
        &&& self.block_number + self.config.proposal_cool_off_period
            + self.config.proposal_duration <= BlockNumber::MAX
    }
}

// What every call keeps.
impl State {
    /// What holds of the id `id` at any time, but for the list of the proposals by the end of
    /// their voting.
    pub open spec fn sound(self, id: PipId) -> bool {
        let known = self.proposals.contains_key(id);
        &&& self.proposal_metadata.contains_key(id) == known
        &&& known ==> {
            &&& id < self.pip_id_sequence
            &&& self.proposals[id].id == id
            &&& self.proposal_metadata[id].id == id
        }
        // Exactly the proposals at the referendum stage have a referendum.
        &&& self.referendums.contains_key(id) == self.in_state(id, ProposalState::Referendum)
        &&& self.referendums.contains_key(id) ==> self.referendums[id].id == id
        // Deposits are held for pending proposals only.
        &&& self.deposits.contains_key(id) == self.pending(id)
        // The tally is that of the votes, of which each account has at most one.
        &&& self.proposal_result.contains_key(id) ==> known
        &&& self.proposal_result.contains_key(id) == self.proposal_votes.contains_key(id)
        &&& self.proposal_votes.contains_key(id) ==> {
            &&& distinct(self.proposal_votes[id])
            &&& tallied(self.proposal_result[id], self.proposal_votes[id])
        }
        // Each vote on a pending proposal is backed by a deposit; its owner's comes first, and
        // no other comes during the cool-off period.
        &&& self.pending(id) ==> {
            &&& self.proposal_votes.contains_key(id)
            &&& matched(self.deposits[id], self.proposal_votes[id])
            &&& self.proposal_votes[id].len() >= 1
            &&& self.proposal_votes[id][0].0 == self.proposal_metadata[id].proposer
            &&& self.proposal_votes[id][0].1 is Yes
            &&& self.proposal_metadata[id].cool_off_until > self.block_number
                ==> self.proposal_votes[id].len() == 1
        }
    }

    /// Whether the id `id` may be on the list of the proposals whose voting ends at `block`: it has
    /// been given away, and the voting on its proposal, if that is there, ends at `block`.
    pub open spec fn ends_at(self, id: PipId, block: BlockNumber) -> bool {
        &&& id < self.pip_id_sequence
        &&& self.proposal_metadata.contains_key(id) ==> self.proposal_metadata[id].end == block
    }

    /// Whether the proposal `id`, if it is pending, is on the list for the block at which its
    /// voting ends, and on none for another block.
    pub open spec fn listed(self, id: PipId) -> bool {
        &&& self.pending(id) ==> seq_at(
            self.proposals_maturing_at,
            self.proposal_metadata[id].end,
        ).contains(id)
        &&& forall|block: BlockNumber| #[trigger]
            seq_at(self.proposals_maturing_at, block).contains(id) ==> self.ends_at(id, block)
    }

    /// What holds at any time.
    pub open spec fn inv(self) -> bool {
        &&& forall|id: PipId| #[trigger] self.sound(id)
        &&& forall|id: PipId| #[trigger] self.listed(id)
    }
}

// Steps that several calls share.
impl State {
    /// The state with one more piece of work left to the rest of the runtime.
    pub open spec fn effect(self, effect: EffectView) -> State {
        State { outbox: self.outbox.push(effect), ..self }
    }

    /// The state with one more event.
    pub open spec fn event(self, event: EventView) -> State {
        self.effect(EffectView::Deposit(event))
    }

    /// The proposal `id` moves to the state `state`.
    pub open spec fn update_proposal_state(self, id: PipId, state: ProposalState) -> State {
        let proposals = if self.proposals.contains_key(id) {
            self.proposals.insert(id, PipView { state, ..self.proposals[id] })
        } else {
            self.proposals
        };
        (State { proposals, ..self }).event(EventView::ProposalStateUpdated(id, state))
    }

    /// The referendum `id` moves to the state `state`.
    pub open spec fn update_referendum_state(self, id: PipId, state: ReferendumState) -> State {
        let referendums = if self.referendums.contains_key(id) {
            self.referendums.insert(id, Referendum { state, ..self.referendums[id] })
        } else {
            self.referendums
        };
        (State { referendums, ..self }).event(EventView::ReferendumStateUpdated(id, state))
    }

    /// The deposits on the proposal `id` are given up, all of them to be released.
    pub open spec fn refund(self, id: PipId) -> State {
        (State { deposits: self.deposits.remove(id), ..self }).effect(
            EffectView::Refund { id, deposits: deposits_in(seq_at(self.deposits, id)) },
        )
    }

    /// The proposal `id` is closed: what deposits are still held on it are given up, and its data
    /// goes if historical data is pruned.
    pub open spec fn prune(self, id: PipId) -> State {
        let refunded = if self.deposits.contains_key(id) {
            self.refund(id)
        } else {
            self
        };
        let kept = if self.config.prune_historical_pips {
            State {
                proposal_result: self.proposal_result.remove(id),
                proposal_votes: self.proposal_votes.remove(id),
                proposal_metadata: self.proposal_metadata.remove(id),
                proposals: self.proposals.remove(id),
                referendums: self.referendums.remove(id),
                ..refunded
            }
        } else {
            refunded
        };
        kept.event(EventView::PipClosed(id, self.config.prune_historical_pips))
    }

    /// The referendum `id` is to be executed after the default enactment period.
    pub open spec fn schedule(self, id: PipId) -> State {
        let at = (self.block_number + self.config.default_enactment_period) as BlockNumber;
        (State {
            referendums: self.referendums.insert(
                id,
                Referendum {
                    state: ReferendumState::Scheduled,
                    enactment_period: at,
                    ..self.referendums[id]
                },
            ),
            scheduled_referendums_at: self.scheduled_referendums_at.insert(
                at,
                seq_at(self.scheduled_referendums_at, at).push(id),
            ),
            ..self
        }).event(EventView::ReferendumScheduled(id, 0, at))
    }

    /// The proposal `id` becomes a referendum. A committee of less than two members cannot vote
    /// on it, so it is enacted at once.
    pub open spec fn create_referendum(
        self,
        id: PipId,
        referendum_type: ReferendumType,
        members: u32,
    ) -> State {
        let referendum = Referendum {
            id,
            state: ReferendumState::Pending,
            referendum_type,
            enactment_period: 0,
        };
        let created = (State {
            referendums: self.referendums.insert(id, referendum),
            ..self
        }).update_proposal_state(id, ProposalState::Referendum).event(
            EventView::ReferendumCreated(id, referendum_type),
        );
        if members < 2 {
            created.schedule(id)
        } else {
            created
        }
    }
}

// Who may make a call, and when.
impl State {
    /// Calls that only the governance committee may make.
    pub open spec fn committee_check(origin: Origin) -> DispatchResult {
        if origin.committee {
            Ok(())
        } else {
            refused(Error::BadOrigin)
        }
    }

    /// Calls that only a member of the governance committee may make.
    pub open spec fn member_check(origin: Origin) -> DispatchResult {
        if origin.signer is None {
            Err(DispatchError::BadOrigin)
        } else {
            match origin.identity {
                Err(e) => Err(DispatchError::Foreign(e)),
                Ok(_) => if origin.committee_member {
                    Ok(())
                } else {
                    refused(Error::NotACommitteeMember)
                },
            }
        }
    }

    /// Calls on a pending proposal.
    pub open spec fn pending_check(self, id: PipId) -> DispatchResult {
        if !self.proposals.contains_key(id) {
            refused(Error::MismatchedProposalId)
        } else if self.proposals[id].state != ProposalState::Pending {
            refused(Error::ProposalIsImmutable)
        } else {
            Ok(())
        }
    }

    /// Calls on a referendum that the committee has not decided.
    pub open spec fn referendum_check(self, id: PipId) -> DispatchResult {
        if !self.referendums.contains_key(id) {
            refused(Error::MismatchedProposalId)
        } else if self.referendums[id].state != ReferendumState::Pending {
            refused(Error::ReferendumIsImmutable)
        } else {
            Ok(())
        }
    }

    /// Calls of a proposal's owner on it, which are possible during the cool-off period only.
    pub open spec fn owner_check(self, origin: Origin, id: PipId) -> DispatchResult {
        if origin.signer is None {
            Err(DispatchError::BadOrigin)
        } else if !self.proposal_metadata.contains_key(id) {
            refused(Error::MismatchedProposalId)
        } else if self.proposal_metadata[id].proposer != origin.signer->0 {
            refused(Error::BadOrigin)
        } else if self.pending_check(id) is Err {
            self.pending_check(id)
        } else if self.proposal_metadata[id].cool_off_until <= self.block_number {
            refused(Error::ProposalIsImmutable)
        } else {
            Ok(())
        }
    }
}

// Parameters.
impl State {
    pub open spec fn set_prune_historical_pips(self, value: bool) -> State {
        (State { config: Config { prune_historical_pips: value, ..self.config }, ..self }).event(
            EventView::PruningHistoricalPips(self.config.prune_historical_pips, value),
        )
    }

    pub open spec fn set_min_proposal_deposit(self, deposit: Balance) -> State {
        (State { config: Config { min_proposal_deposit: deposit, ..self.config }, ..self }).event(
            EventView::MinimumProposalDepositChanged(self.config.min_proposal_deposit, deposit),
        )
    }

    pub open spec fn set_quorum_threshold(self, threshold: Balance) -> State {
        (State { config: Config { quorum_threshold: threshold, ..self.config }, ..self }).event(
            EventView::QuorumThresholdChanged(self.config.quorum_threshold, threshold),
        )
    }

    pub open spec fn set_proposal_duration(self, duration: BlockNumber) -> State {
        (State { config: Config { proposal_duration: duration, ..self.config }, ..self }).event(
            EventView::ProposalDurationChanged(self.config.proposal_duration, duration),
        )
    }

    pub open spec fn set_default_enact_period(self, period: BlockNumber) -> State {
        (State {
            config: Config { default_enactment_period: period, ..self.config },
            ..self
        }).event(
            EventView::DefaultEnactmentPeriodChanged(self.config.default_enactment_period, period),
        )
    }
}

// Proposals.
impl State {
    /// When a deposit may be asked for, to make a proposal with.
    pub open spec fn propose_check(self, origin: Origin, deposit: Balance) -> DispatchResult {
        if origin.signer is None {
            Err(DispatchError::BadOrigin)
        } else if deposit < self.config.min_proposal_deposit {
            refused(Error::InsufficientDeposit)
        } else {
            Ok(())
        }
    }

    /// The outcome of making a proposal.
    pub open spec fn propose_result(
        self,
        origin: Origin,
        deposit: Balance,
        payment: Payment,
    ) -> DispatchResult {
        match self.propose_check(origin, deposit) {
            Err(e) => Err(e),
            Ok(_) => match payment {
                Payment::Declined => refused(Error::InsufficientDeposit),
                Payment::FeeRefused(e) => Err(DispatchError::Foreign(e)),
                Payment::Settled => Ok(()),
            },
        }
    }

    /// A proposal is made. Its owner's deposit is also the first vote for it.
    pub open spec fn propose(
        self,
        who: AccountId,
        call: Seq<u8>,
        deposit: Balance,
        url: Option<Seq<u8>>,
        description: Option<Seq<u8>>,
        beneficiaries: Seq<Beneficiary<Balance>>,
    ) -> State {
        let id = self.pip_id_sequence;
        let cool_off_until = (self.block_number
            + self.config.proposal_cool_off_period) as BlockNumber;
        let end = (cool_off_until + self.config.proposal_duration) as BlockNumber;
        (State {
            pip_id_sequence: (id + 1) as u32,
            proposals_maturing_at: self.proposals_maturing_at.insert(
                end,
                seq_at(self.proposals_maturing_at, end).push(id),
            ),
            proposal_metadata: self.proposal_metadata.insert(
                id,
                MetadataView {
                    proposer: who,
                    id,
                    end,
                    url,
                    description,
                    cool_off_until,
                    beneficiaries,
                },
            ),
            deposits: self.deposits.insert(
                id,
                seq![(who, DepositInfo { owner: who, amount: deposit })],
            ),
            proposals: self.proposals.insert(
                id,
                PipView { id, proposal: call, state: ProposalState::Pending },
            ),
            proposal_result: self.proposal_result.insert(
                id,
                VotingResult {
                    ayes_count: 1,
                    ayes_stake: deposit,
                    nays_count: 0,
                    nays_stake: 0,
                },
            ),
            proposal_votes: self.proposal_votes.insert(id, seq![(who, Vote::Yes(deposit))]),
            ..self
        }).event(
            EventView::ProposalCreated(
                who,
                id,
                deposit,
                url,
                description,
                cool_off_until,
                end,
                reported(call, self.config.max_reporting_size),
            ),
        )
    }

    /// A proposal gets another url and description.
    pub open spec fn amend(
        self,
        who: AccountId,
        id: PipId,
        url: Option<Seq<u8>>,
        description: Option<Seq<u8>>,
    ) -> State {
        (State {
            proposal_metadata: self.proposal_metadata.insert(
                id,
                MetadataView { url, description, ..self.proposal_metadata[id] },
            ),
            ..self
        }).event(EventView::ProposalAmended(who, id, true, 0))
    }

    /// A proposal is cancelled by its owner.
    pub open spec fn cancel(self, id: PipId) -> State {
        self.refund(id).update_proposal_state(id, ProposalState::Cancelled).prune(id)
    }

    /// The owner of the proposal `id` comes to hold a deposit, and with it a vote, of `amount`.
    pub open spec fn redeposit(self, who: AccountId, id: PipId, amount: Balance) -> State {
        State {
            deposits: self.deposits.insert(
                id,
                put(seq_at(self.deposits, id), who, DepositInfo { owner: who, amount }),
            ),
            proposal_result: self.proposal_result.insert(
                id,
                VotingResult { ayes_stake: amount, ..self.result_of(id) },
            ),
            proposal_votes: self.proposal_votes.insert(
                id,
                put(seq_at(self.proposal_votes, id), who, Vote::Yes(amount)),
            ),
            ..self
        }
    }

    /// What is to be reserved to add `additional` to the deposit of `who` on the proposal `id`.
    pub open spec fn bond_amount(self, who: AccountId, id: PipId, additional: Balance) -> Balance {
        room(self.deposit_of(id, who), additional)
    }

    /// The outcome of adding to a deposit.
    pub open spec fn bond_result(
        self,
        origin: Origin,
        id: PipId,
        reserved: bool,
    ) -> DispatchResult {
        match self.owner_check(origin, id) {
            Err(e) => Err(e),
            Ok(_) => if reserved {
                Ok(())
            } else {
                refused(Error::InsufficientDeposit)
            },
        }
    }

    /// A deposit is added to.
    pub open spec fn bond(self, who: AccountId, id: PipId, additional: Balance) -> State {
        let amount = self.bond_amount(who, id, additional);
        self.redeposit(who, id, (self.deposit_of(id, who) + amount) as Balance).event(
            EventView::ProposalAmended(who, id, true, amount),
        )
    }

    /// The outcome of releasing a part of a deposit.
    pub open spec fn unbond_result(
        self,
        origin: Origin,
        id: PipId,
        amount: Balance,
    ) -> DispatchResult {
        match self.owner_check(origin, id) {
            Err(e) => Err(e),
            Ok(_) => if self.deposit_of(id, origin.signer->0) - amount
                < self.config.min_proposal_deposit {
                refused(Error::InsufficientDeposit)
            } else {
                Ok(())
            },
        }
    }

    /// A part of a deposit is released.
    pub open spec fn unbond(self, who: AccountId, id: PipId, amount: Balance) -> State {
        self.effect(EffectView::Unreserve { who, amount }).redeposit(
            who,
            id,
            (self.deposit_of(id, who) - amount) as Balance,
        ).event(EventView::ProposalAmended(who, id, false, amount))
    }

    /// When a deposit may be asked for, to vote with.
    pub open spec fn vote_check(self, origin: Origin, id: PipId) -> DispatchResult {
        if origin.signer is None {
            Err(DispatchError::BadOrigin)
        } else if !self.proposal_metadata.contains_key(id) {
            refused(Error::MismatchedProposalId)
        } else if self.proposal_metadata[id].cool_off_until > self.block_number {
            refused(Error::ProposalOnCoolOffPeriod)
        } else if self.pending_check(id) is Err {
            self.pending_check(id)
        } else if !self.proposal_result.contains_key(id) {
            refused(Error::NoSuchProposal)
        } else if self.vote_of(id, origin.signer->0) != Vote::<Balance>::NotCast {
            refused(Error::DuplicateVote)
        } else {
            Ok(())
        }
    }

    /// The outcome of voting.
    pub open spec fn vote_result(
        self,
        origin: Origin,
        id: PipId,
        aye: bool,
        deposit: Balance,
        reserved: bool,
    ) -> DispatchResult {
        match self.vote_check(origin, id) {
            Err(e) => Err(e),
            Ok(_) => if !reserved {
                refused(Error::InsufficientDeposit)
            } else {
                match counted(self.result_of(id), ballot(aye, deposit)) {
                    Err(e) => refused(e),
                    Ok(_) => Ok(()),
                }
            },
        }
    }

    /// A vote enters the tally.
    pub open spec fn cast(self, who: AccountId, id: PipId, vote: Vote<Balance>) -> State {
        State {
            proposal_result: self.proposal_result.insert(
                id,
                counted(self.result_of(id), vote)->Ok_0,
            ),
            proposal_votes: self.proposal_votes.insert(
                id,
                put(seq_at(self.proposal_votes, id), who, vote),
            ),
            ..self
        }
    }

    /// What voting makes of the state. A vote that the tally has no room for is undone: what was
    /// reserved for it is released.
    pub open spec fn vote(
        self,
        origin: Origin,
        id: PipId,
        aye: bool,
        deposit: Balance,
        reserved: bool,
    ) -> State {
        let who = origin.signer->0;
        if self.vote_check(origin, id) is Err || !reserved {
            self
        } else if counted(self.result_of(id), ballot(aye, deposit)) is Err {
            self.effect(EffectView::Unreserve { who, amount: deposit })
        } else {
            (State {
                deposits: self.deposits.insert(
                    id,
                    put(
                        seq_at(self.deposits, id),
                        who,
                        DepositInfo { owner: who, amount: deposit },
                    ),
                ),
                ..self.cast(who, id, ballot(aye, deposit))
            }).event(EventView::Voted(who, id, aye, deposit))
        }
    }

    /// The outcome of killing a proposal.
    pub open spec fn kill_result(self, origin: Origin, id: PipId) -> DispatchResult {
        if !origin.committee {
            refused(Error::BadOrigin)
        } else if !self.proposals.contains_key(id) {
            refused(Error::NoSuchProposal)
        } else {
            self.pending_check(id)
        }
    }

    /// A proposal is killed by the governance committee.
    pub open spec fn kill(self, id: PipId) -> State {
        self.refund(id).update_proposal_state(id, ProposalState::Killed).prune(id)
    }
}

// Referendums.
impl State {
    /// The outcome of fast-tracking a proposal.
    pub open spec fn fast_track_result(self, origin: Origin, id: PipId) -> DispatchResult {
        match State::member_check(origin) {
            Err(e) => Err(e),
            Ok(_) => self.pending_check(id),
        }
    }

    /// A pending proposal becomes a referendum without a vote of the community.
    pub open spec fn fast_track(self, id: PipId, members: u32) -> State {
        self.create_referendum(id, ReferendumType::FastTracked, members).refund(id)
    }

    /// A member of the governance committee makes a proposal that is a referendum at once.
    pub open spec fn emergency(
        self,
        who: AccountId,
        call: Seq<u8>,
        url: Option<Seq<u8>>,
        description: Option<Seq<u8>>,
        beneficiaries: Seq<Beneficiary<Balance>>,
        members: u32,
    ) -> State {
        let id = self.pip_id_sequence;
        (State {
            pip_id_sequence: (id + 1) as u32,
            proposals: self.proposals.insert(
                id,
                PipView { id, proposal: call, state: ProposalState::Pending },
            ),
            proposal_metadata: self.proposal_metadata.insert(
                id,
                MetadataView {
                    proposer: who,
                    id,
                    end: 0,
                    url,
                    description,
                    cool_off_until: 0,
                    beneficiaries,
                },
            ),
            ..self
        }).event(
            EventView::ProposalCreated(
                who,
                id,
                0,
                url,
                description,
                0,
                0,
                reported(call, self.config.max_reporting_size),
            ),
        ).create_referendum(id, ReferendumType::Emergency, members)
    }

    /// The outcome of a decision of the governance committee on a referendum.
    pub open spec fn ratify_result(self, origin: Origin, id: PipId) -> DispatchResult {
        if origin.voting_majority {
            self.referendum_check(id)
        } else {
            refused(Error::BadOrigin)
        }
    }

    /// A referendum is rejected by the governance committee.
    pub open spec fn reject(self, id: PipId) -> State {
        self.update_referendum_state(id, ReferendumState::Rejected).prune(id)
    }

    /// The block that a referendum is rescheduled to: the next one where none is named.
    pub open spec fn reschedule_to(self, until: Option<BlockNumber>) -> int {
        match until {
            Some(block) => block as int,
            None => self.block_number + 1,
        }
    }

    /// Whether the caller is the release coordinator.
    pub open spec fn coordinator_check(
        origin: Origin,
        coordinator: Option<IdentityId>,
    ) -> DispatchResult {
        if origin.signer is None {
            Err(DispatchError::BadOrigin)
        } else {
            match origin.identity {
                Err(e) => Err(DispatchError::Foreign(e)),
                Ok(did) => if coordinator == Some(did) {
                    Ok(())
                } else {
                    refused(Error::BadOrigin)
                },
            }
        }
    }

    /// The outcome of rescheduling a referendum.
    pub open spec fn reschedule_result(
        self,
        origin: Origin,
        id: PipId,
        until: Option<BlockNumber>,
        coordinator: Option<IdentityId>,
    ) -> DispatchResult {
        match State::coordinator_check(origin, coordinator) {
            Err(e) => Err(e),
            Ok(_) => if self.reschedule_to(until) <= self.block_number {
                refused(Error::InvalidFutureBlockNumber)
            } else if !self.referendums.contains_key(id) {
                refused(Error::MismatchedProposalId)
            } else if self.referendums[id].state != ReferendumState::Scheduled {
                refused(Error::ReferendumIsImmutable)
            } else {
                Ok(())
            },
        }
    }

    /// The schedule without the referendum `id` at the block `block`.
    pub open spec fn unschedule(self, id: PipId, block: BlockNumber) -> Map<
        BlockNumber,
        Seq<PipId>,
    > {
        self.scheduled_referendums_at.insert(
            block,
            seq_at(self.scheduled_referendums_at, block).filter(other_than(id)),
        )
    }

    /// A scheduled referendum is moved to another block.
    pub open spec fn reschedule(self, id: PipId, until: BlockNumber) -> State {
        let before = self.referendums[id].enactment_period;
        let rest = self.unschedule(id, before);
        (State {
            referendums: self.referendums.insert(
                id,
                Referendum { enactment_period: until, ..self.referendums[id] },
            ),
            scheduled_referendums_at: rest.insert(until, seq_at(rest, until).push(id)),
            ..self
        }).event(EventView::ReferendumScheduled(id, before, until))
    }
}

// Blocks.
impl State {
    /// The voting on the proposal `id` ends. A proposal that is not pending any more, because it
    /// was cancelled, killed or fast-tracked, is left as it is.
    pub open spec fn settle(self, id: PipId, members: u32) -> State {
        if !self.pending(id) {
            self
        } else if self.accepted(id) {
            self.refund(id).create_referendum(id, ReferendumType::Community, members)
        } else {
            self.update_proposal_state(id, ProposalState::Rejected).refund(id).prune(id)
        }
    }

    /// The voting on each of the proposals `ids` ends, in this order.
    pub open spec fn settle_all(self, ids: Seq<PipId>, members: u32) -> State
        decreases ids.len(),
    {
        if ids.len() == 0 {
            self
        } else {
            self.settle_all(ids.drop_last(), members).settle(ids.last(), members)
        }
    }

    /// The proposals whose voting ends at the block `block`, taken off the list.
    pub open spec fn mature(self, block: BlockNumber) -> State {
        State { proposals_maturing_at: self.proposals_maturing_at.remove(block), ..self }
    }

    /// The voting that ends at the block `block` has ended.
    pub open spec fn close_voting(self, block: BlockNumber, members: u32) -> State {
        self.mature(block).settle_all(seq_at(self.proposals_maturing_at, block), members)
    }

    /// The referendums that are to be executed at the block `block` once its voting has ended.
    pub open spec fn due(self, block: BlockNumber, members: u32) -> Seq<PipId> {
        seq_at(self.close_voting(block, members).scheduled_referendums_at, block)
    }

    /// Nothing is left on the schedule for the block `block`.
    pub open spec fn clear_schedule(self, block: BlockNumber) -> State {
        State { scheduled_referendums_at: self.scheduled_referendums_at.remove(block), ..self }
    }

    /// The voting that ends at the block `block` has ended, and the referendums due at it have
    /// been handed out for execution.
    pub open spec fn end_block(self, block: BlockNumber, members: u32) -> State {
        self.close_voting(block, members).clear_schedule(block)
    }

    /// Whether ending the voting at `block` stays within the block numbers: where a proposal is
    /// accepted and the committee is too small to vote on it, the block at which it is executed
    /// has a number.
    pub open spec fn end_block_fits(self, block: BlockNumber, members: u32) -> bool {
        ||| members >= 2
        ||| self.enactment_fits()
        ||| forall|i: int|
            0 <= i < seq_at(self.proposals_maturing_at, block).len() ==> !(self.pending(
                #[trigger] seq_at(self.proposals_maturing_at, block)[i],
            ) && self.accepted(seq_at(self.proposals_maturing_at, block)[i]))
    }

    /// The execution of the referendum `id` has succeeded or failed.
    pub open spec fn complete(self, id: PipId, success: bool) -> State {
        let updated = self.update_referendum_state(
            id,
            if success {
                ReferendumState::Executed
            } else {
                ReferendumState::Failed
            },
        );
        let paid = if success && self.proposal_metadata.contains_key(id) {
            State {
                outbox: updated.outbox + payments_to(self.proposal_metadata[id].beneficiaries),
                ..updated
            }
        } else {
            updated
        };
        paid.prune(id)
    }

    /// The block `block` begins.
    pub open spec fn begin_block(self, block: BlockNumber) -> State {
        State { block_number: block, ..self }
    }
}

} // verus!
