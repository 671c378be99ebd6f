//! The calls on the module as values, so that laws can speak of every call and of every sequence
//! of calls.
use crate::model::State;
use crate::types::{
    Balance, Beneficiary, BlockNumber, DispatchResult, IdentityId, Origin, Payment, PipId,
    ProposalState,
};
use vstd::prelude::*;

verus! {

/// A call, with all that it is given.
pub enum Step {
    SetPruneHistoricalPips { origin: Origin, value: bool },
    SetMinProposalDeposit { origin: Origin, deposit: Balance },
    SetQuorumThreshold { origin: Origin, threshold: Balance },
    SetProposalDuration { origin: Origin, duration: BlockNumber },
    SetDefaultEnactPeriod { origin: Origin, period: BlockNumber },
    Propose {
        origin: Origin,
        call: Seq<u8>,
        deposit: Balance,
        url: Option<Seq<u8>>,
        description: Option<Seq<u8>>,
        beneficiaries: Seq<Beneficiary<Balance>>,
        payment: Payment,
    },
    Amend { origin: Origin, id: PipId, url: Option<Seq<u8>>, description: Option<Seq<u8>> },
    Cancel { origin: Origin, id: PipId },
    Bond { origin: Origin, id: PipId, additional: Balance, reserved: bool },
    Unbond { origin: Origin, id: PipId, amount: Balance },
    CastVote { origin: Origin, id: PipId, aye: bool, deposit: Balance, reserved: bool },
    Kill { origin: Origin, id: PipId },
    FastTrack { origin: Origin, id: PipId, members: u32 },
    Emergency {
        origin: Origin,
        call: Seq<u8>,
        url: Option<Seq<u8>>,
        description: Option<Seq<u8>>,
        beneficiaries: Seq<Beneficiary<Balance>>,
        members: u32,
    },
    Enact { origin: Origin, id: PipId },
    Reject { origin: Origin, id: PipId },
    Reschedule {
        origin: Origin,
        id: PipId,
        until: Option<BlockNumber>,
        coordinator: Option<IdentityId>,
    },
    Initialize { block: BlockNumber, members: u32 },
    EndBlock { block: BlockNumber, members: u32 },
    Complete { id: PipId, success: bool },
    ClearSchedule { block: BlockNumber },
    TakeEffects,
}

impl State {
    /// The outcome of a call.
    pub open spec fn outcome(self, step: Step) -> DispatchResult {
        match step {
            Step::SetPruneHistoricalPips { origin, .. } => State::committee_check(origin),
            Step::SetMinProposalDeposit { origin, .. } => State::committee_check(origin),
            Step::SetQuorumThreshold { origin, .. } => State::committee_check(origin),
            Step::SetProposalDuration { origin, .. } => State::committee_check(origin),
            Step::SetDefaultEnactPeriod { origin, .. } => State::committee_check(origin),
            Step::Propose { origin, deposit, payment, .. } => self.propose_result(
                origin,
                deposit,
                payment,
            ),
            Step::Amend { origin, id, .. } => self.owner_check(origin, id),
            Step::Cancel { origin, id } => self.owner_check(origin, id),
            Step::Bond { origin, id, reserved, .. } => self.bond_result(origin, id, reserved),
            Step::Unbond { origin, id, amount } => self.unbond_result(origin, id, amount),
            Step::CastVote { origin, id, aye, deposit, reserved } => self.vote_result(
                origin,
                id,
                aye,
                deposit,
                reserved,
            ),
            Step::Kill { origin, id } => self.kill_result(origin, id),
            Step::FastTrack { origin, id, .. } => self.fast_track_result(origin, id),
            Step::Emergency { origin, .. } => State::member_check(origin),
            Step::Enact { origin, id } => self.ratify_result(origin, id),
            Step::Reject { origin, id } => self.ratify_result(origin, id),
            Step::Reschedule { origin, id, until, coordinator } => self.reschedule_result(
                origin,
                id,
                until,
                coordinator,
            ),
            Step::Initialize { .. } => Ok(()),
            Step::EndBlock { .. } => Ok(()),
            Step::Complete { .. } => Ok(()),
            Step::ClearSchedule { .. } => Ok(()),
            Step::TakeEffects => Ok(()),
        }
    }

    /// Whether a call can be made: its numbers stay within their types, blocks come in order, and
    /// only the execution of a proposal at the referendum stage is completed.
    pub open spec fn allows(self, step: Step) -> bool {
        match step {
            Step::Propose { .. } => self.outcome(step) is Ok ==> self.proposal_fits(),
            Step::FastTrack { members, .. } => self.outcome(step) is Ok && members < 2
                ==> self.enactment_fits(),
            Step::Emergency { members, .. } => self.outcome(step) is Ok ==> self.pip_id_sequence
                < u32::MAX && (members < 2 ==> self.enactment_fits()),
            Step::Enact { .. } => self.outcome(step) is Ok ==> self.enactment_fits(),
            Step::Reschedule { origin, coordinator, .. } => State::coordinator_check(
                origin,
                coordinator,
            ) is Ok ==> self.block_number < BlockNumber::MAX,
            Step::Initialize { block, members } => self.block_number <= block
                && self.begin_block(block).end_block_fits(block, members),
            Step::EndBlock { block, members } => self.end_block_fits(block, members),
            Step::Complete { id, .. } => self.in_state(id, ProposalState::Referendum),
            _ => true,
        }
    }

    /// The state after a call.
    pub open spec fn after(self, step: Step) -> State {
        if self.outcome(step) is Err {
            match step {
                Step::CastVote { origin, id, aye, deposit, reserved } => self.vote(
                    origin,
                    id,
                    aye,
                    deposit,
                    reserved,
                ),
                _ => self,
            }
        } else {
            match step {
                Step::SetPruneHistoricalPips { value, .. } => self.set_prune_historical_pips(value),
                Step::SetMinProposalDeposit { deposit, .. } => self.set_min_proposal_deposit(
                    deposit,
                ),
                Step::SetQuorumThreshold { threshold, .. } => self.set_quorum_threshold(threshold),
                Step::SetProposalDuration { duration, .. } => self.set_proposal_duration(duration),
                Step::SetDefaultEnactPeriod { period, .. } => self.set_default_enact_period(period),
                Step::Propose { origin, call, deposit, url, description, beneficiaries, .. } =>
                    self.propose(
                        origin.signer->0,
                        call,
                        deposit,
                        url,
                        description,
                        beneficiaries,
                    ),
                Step::Amend { origin, id, url, description } => self.amend(
                    origin.signer->0,
                    id,
                    url,
                    description,
                ),
                Step::Cancel { id, .. } => self.cancel(id),
                Step::Bond { origin, id, additional, .. } => self.bond(
                    origin.signer->0,
                    id,
                    additional,
                ),
                Step::Unbond { origin, id, amount } => self.unbond(origin.signer->0, id, amount),
                Step::CastVote { origin, id, aye, deposit, reserved } => self.vote(
                    origin,
                    id,
                    aye,
                    deposit,
                    reserved,
                ),
                Step::Kill { id, .. } => self.kill(id),
                Step::FastTrack { id, members, .. } => self.fast_track(id, members),
                Step::Emergency { origin, call, url, description, beneficiaries, members } =>
                    self.emergency(
                        origin.signer->0,
                        call,
                        url,
                        description,
                        beneficiaries,
                        members,
                    ),
                Step::Enact { id, .. } => self.schedule(id),
                Step::Reject { id, .. } => self.reject(id),
                Step::Reschedule { id, until, .. } => self.reschedule(
                    id,
                    self.reschedule_to(until) as BlockNumber,
                ),
                Step::Initialize { block, members } => self.begin_block(block).end_block(
                    block,
                    members,
                ),
                Step::EndBlock { block, members } => self.end_block(block, members),
                Step::Complete { id, success } => self.complete(id, success),
                Step::ClearSchedule { block } => self.clear_schedule(block),
                Step::TakeEffects => State { outbox: Seq::empty(), ..self },
            }
        }
    }

    /// Whether each of the calls `steps`, made one after the other, can be made.
    pub open spec fn allows_all(self, steps: Seq<Step>) -> bool
        decreases steps.len(),
    {
        steps.len() == 0 || {
            &&& self.allows_all(steps.drop_last())
            &&& self.after_all(steps.drop_last()).allows(steps.last())
        }
    }

    /// The state after the calls `steps`, made one after the other.
    pub open spec fn after_all(self, steps: Seq<Step>) -> State
        decreases steps.len(),
    {
        if steps.len() == 0 {
            self
        } else {
            self.after_all(steps.drop_last()).after(steps.last())
        }
    }
}

} // verus!
