//! The calls on the module.
use crate::hashing::hash_blake_two_256;
use crate::ledger::{lemma_lookup_entry, Ledger};
use crate::model::{deposits_in, other_than, payments_to, refused, reported, State};
use crate::soundness::{
    amend_keeps_inv, begin_block_keeps_inv, bond_keeps_inv, cancel_keeps_inv,
    complete_keeps_inv, cool_off_has_one_voter, emergency_keeps_inv, end_block_keeps_inv,
    fast_track_keeps_inv, kill_keeps_inv, lemma_settle_all, propose_keeps_inv,
    records_alone_matter, reject_keeps_inv, reschedule_keeps_inv, schedule_keeps_inv,
    unbond_keeps_inv, vote_keeps_inv,
};
use crate::store::Module;
use crate::table::{lemma_push_contains, seq_at};
use crate::tally::{count, counted};
use crate::types::{
    clone_description, clone_url, copy_bytes, description_view, url_view, AccountId, Balance,
    Beneficiary, BlockNumber, Committee, Config, Deposit, DepositInfo, DispatchError,
    DispatchResult, Effect, EncodedCall, Error, Event, IdentityId, Origin, Payment, Pip,
    PipDescription, PipId, PipsMetadata, ProposalData, ProposalState, Referendum, ReferendumState,
    ReferendumType, Url, Vote, VoteCount, VotingResult,
};
use vstd::prelude::*;

verus! {

/// A copy of a list.
fn copy_list<T: Copy>(list: &Vec<T>) -> (copy: Vec<T>)
    ensures
        copy@ == list@,
{
    let mut copy: Vec<T> = Vec::new();
    let mut i: usize = 0;
    while i < list.len()
        invariant
            i <= list.len(),
            copy@ =~= list@.take(i as int),
        decreases list.len() - i,
    {
        copy.push(list[i]);
        i = i + 1;
    }
    assert(copy@ =~= list@);
    copy
}

// Steps that several calls share.
impl Module {
    /// It generates the next id for proposals and referendums.
    pub(crate) fn next_pip_id(&mut self) -> (id: PipId)
        requires
            old(self)@.pip_id_sequence < u32::MAX,
        ensures
            id == old(self)@.pip_id_sequence,
            final(self)@ == (State { pip_id_sequence: (id + 1) as u32, ..old(self)@ }),
    {
        let id: PipId = self.pip_id_sequence();
        self.put_pip_id_sequence(id + 1);
        id
    }

    /// Moves the proposal `id`, if it exists, to another state.
    pub(crate) fn update_proposal_state(&mut self, id: PipId, new_state: ProposalState)
        ensures
            final(self)@ == old(self)@.update_proposal_state(id, new_state),
    {
        match self.take_proposal(id) {
            Some(proposal) => {
                let updated: Pip<EncodedCall> = Pip {
                    id: proposal.id,
                    proposal: proposal.proposal,
                    state: new_state,
                };
                self.put_proposal(id, updated);
            },
            None => {},
        }
        self.deposit_event(Event::ProposalStateUpdated(id, new_state));
        assert(self@.proposals =~= old(self)@.update_proposal_state(id, new_state).proposals);
    }

    /// Moves the referendum `id`, if it exists, to another state.
    pub(crate) fn update_referendum_state(&mut self, id: PipId, new_state: ReferendumState)
        ensures
            final(self)@ == old(self)@.update_referendum_state(id, new_state),
    {
        match self.referendums(id) {
            Some(referendum) => self.put_referendum(
                id,
                Referendum { state: new_state, ..referendum },
            ),
            None => {},
        }
        self.deposit_event(Event::ReferendumStateUpdated(id, new_state));
    }

    /// Refunds any tokens used to vote or bond a proposal.
    pub(crate) fn refund_proposal(&mut self, id: PipId)
        ensures
            final(self)@ == old(self)@.refund(id),
    {
        let entries: Ledger<Deposit> = self.take_deposits(id);
        let mut deposits: Vec<Deposit> = Vec::new();
        let mut i: usize = 0;
        while i < entries.len()
            invariant
                i <= entries.len(),
                deposits@ =~= deposits_in(entries@).take(i as int),
            decreases entries.len() - i,
        {
            let entry: (AccountId, Deposit) = entries[i];
            deposits.push(entry.1);
            i = i + 1;
        }
        assert(deposits@ =~= deposits_in(entries@));
        self.leave(Effect::Refund { id, deposits });
    }

    /// Close a proposal.
    ///
    /// Voting ceases and proposal is removed from storage, if historical data is pruned.
    /// It also refunds all deposits that are still held.
    pub(crate) fn prune_data(&mut self, id: PipId)
        ensures
            final(self)@ == old(self)@.prune(id),
    {
        if self.has_deposits(id) {
            self.refund_proposal(id);
        }
        let prune: bool = self.prune_historical_pips();
        if prune {
            self.forget(id);
        }
        self.deposit_event(Event::PipClosed(id, prune));
    }

    /// Schedules the referendum `id` for execution after the default enactment period.
    pub(crate) fn prepare_to_dispatch(&mut self, id: PipId) -> (result: DispatchResult)
        requires
            old(self)@.referendums.contains_key(id) ==> old(self)@.enactment_fits(),
        ensures
            result == if old(self)@.referendums.contains_key(id) {
                Ok(())
            } else {
                refused(Error::MismatchedProposalId)
            },
            final(self)@ == if result is Ok {
                old(self)@.schedule(id)
            } else {
                old(self)@
            },
    {
        match self.referendums(id) {
            Some(referendum) => {
                // Set the default enactment period and move it to `Scheduled`
                let enactment_period: BlockNumber = self.block_number()
                    + self.default_enactment_period();
                self.put_referendum(
                    id,
                    Referendum {
                        enactment_period,
                        state: ReferendumState::Scheduled,
                        ..referendum
                    },
                );
                self.append_scheduled(enactment_period, id);
                self.deposit_event(Event::ReferendumScheduled(id, 0, enactment_period));
                Ok(())
            },
            None => Err(DispatchError::Module(Error::MismatchedProposalId)),
        }
    }

    /// Create a referendum object from a proposal. If governance committee is composed of less
    /// than 2 members, enact it immediately. Otherwise, committee votes on this referendum and
    /// decides whether it should be enacted.
    pub(crate) fn create_referendum(
        &mut self,
        id: PipId,
        referendum_type: ReferendumType,
        members: u32,
    )
        requires
            members < 2 ==> old(self)@.enactment_fits(),
        ensures
            final(self)@ == old(self)@.create_referendum(id, referendum_type, members),
    {
        let referendum: Referendum = Referendum {
            id,
            state: ReferendumState::Pending,
            referendum_type,
            enactment_period: 0,
        };
        self.put_referendum(id, referendum);
        self.update_proposal_state(id, ProposalState::Referendum);
        self.deposit_event(Event::ReferendumCreated(id, referendum_type));
        if members < 2 {
            let _ = self.prepare_to_dispatch(id);
        }
    }

    /// Whether the proposal `id` is pending.
    pub(crate) fn is_proposal_pending(&self, id: PipId) -> (result: DispatchResult)
        ensures
            result == self@.pending_check(id),
    {
        match self.proposals(id) {
            Some(proposal) => if proposal.state == ProposalState::Pending {
                Ok(())
            } else {
                Err(DispatchError::Module(Error::ProposalIsImmutable))
            },
            None => Err(DispatchError::Module(Error::MismatchedProposalId)),
        }
    }

    /// Whether the referendum `id` is pending.
    pub(crate) fn is_referendum_pending(&self, id: PipId) -> (result: DispatchResult)
        ensures
            result == self@.referendum_check(id),
    {
        match self.referendums(id) {
            Some(referendum) => if referendum.state == ReferendumState::Pending {
                Ok(())
            } else {
                Err(DispatchError::Module(Error::ReferendumIsImmutable))
            },
            None => Err(DispatchError::Module(Error::MismatchedProposalId)),
        }
    }

    /// It inserts the vote and updates the accountability of target proposal.
    pub(crate) fn unsafe_vote(
        &mut self,
        id: PipId,
        proposer: AccountId,
        vote: Vote<Balance>,
    ) -> (result: DispatchResult)
        ensures
            match counted(old(self)@.result_of(id), vote) {
                Ok(_) => result == DispatchResult::Ok(()) && final(self)@ == old(self)@.cast(
                    proposer,
                    id,
                    vote,
                ),
                Err(e) => result == refused(e) && final(self)@ == old(self)@,
            },
    {
        match count(self.proposal_result(id), vote) {
            Ok(stats) => {
                self.put_result(id, stats);
                self.put_vote(id, proposer, vote);
                Ok(())
            },
            Err(e) => Err(DispatchError::Module(e)),
        }
    }

    /// Returns a reportable representation of a proposal taking care that the reported data are
    /// not too large.
    pub fn reportable_proposal_data(&self, proposal: &EncodedCall) -> (data: ProposalData)
        ensures
            data@ == reported(proposal@, self@.config.max_reporting_size),
    {
        if proposal.len() > self.config().max_reporting_size {
            ProposalData::Hash(hash_blake_two_256(proposal.as_slice()))
        } else {
            ProposalData::Proposal(copy_bytes(proposal.as_slice()))
        }
    }
}

// Proposals.
impl Module {
    /// What is to be reserved before a proposal is made with the deposit `deposit`: the account
    /// and the amount. Once it is reserved, the account is to be charged the protocol fee.
    pub fn propose_request(&self, origin: &Origin, deposit: Balance) -> (request: Result<
        (AccountId, Balance),
        DispatchError,
    >)
        ensures
            match request {
                Ok(r) => self@.propose_check(*origin, deposit) is Ok && r == (
                    origin.signer->0,
                    deposit,
                ),
                Err(e) => self@.propose_check(*origin, deposit) == DispatchResult::Err(e),
            },
    {
        match origin.signer {
            // Pre conditions: caller must have min balance
            Some(proposer) => if deposit >= self.min_proposal_deposit() {
                Ok((proposer, deposit))
            } else {
                Err(DispatchError::Module(Error::InsufficientDeposit))
            },
            None => Err(DispatchError::BadOrigin),
        }
    }

    /// A network member creates a Mesh Improvement Proposal by submitting a dispatchable which
    /// changes the network in someway. A minimum deposit is required to open a new proposal.
    ///
    /// # Arguments
    /// * `proposal` a dispatchable call
    /// * `deposit` minimum deposit value
    /// * `url` a link to a website for proposal discussion
    /// * `payment` what came of the payments that [`Module::propose_request`] asks for
    pub fn propose(
        &mut self,
        origin: &Origin,
        proposal: EncodedCall,
        deposit: Balance,
        url: Option<Url>,
        description: Option<PipDescription>,
        beneficiaries: Vec<Beneficiary<Balance>>,
        payment: Payment,
    ) -> (result: DispatchResult)
        requires
            old(self).wf(),
            old(self)@.propose_result(*origin, deposit, payment) is Ok
                ==> old(self)@.proposal_fits(),
        ensures
            final(self).wf(),
            result == old(self)@.propose_result(*origin, deposit, payment),
            final(self)@ == if result is Ok {
                old(self)@.propose(
                    origin.signer->0,
                    proposal@,
                    deposit,
                    url_view(url),
                    description_view(description),
                    beneficiaries@,
                )
            } else {
                old(self)@
            },
    {
        let proposer: AccountId = match self.propose_request(origin, deposit) {
            Ok(request) => request.0,
            Err(e) => return Err(e),
        };
        match payment {
            Payment::Declined => return Err(DispatchError::Module(Error::InsufficientDeposit)),
            Payment::FeeRefused(e) => return Err(DispatchError::Foreign(e)),
            Payment::Settled => {},
        }
        let ghost s = self@;
        let id: PipId = self.next_pip_id();
        proof {
            assert(s.sound(id));
            propose_keeps_inv(
                s,
                proposer,
                proposal@,
                deposit,
                url_view(url),
                description_view(description),
                beneficiaries@,
            );
        }
        let cool_off_until: BlockNumber = self.block_number() + self.proposal_cool_off_period();
        let end: BlockNumber = cool_off_until + self.proposal_duration();
        let data: ProposalData = self.reportable_proposal_data(&proposal);
        let event: Event = Event::ProposalCreated(
            proposer,
            id,
            deposit,
            clone_url(&url),
            clone_description(&description),
            cool_off_until,
            end,
            data,
        );
        self.append_maturing(end, id);
        self.put_metadata(
            id,
            PipsMetadata { proposer, id, end, url, description, cool_off_until, beneficiaries },
        );
        self.put_deposit(id, proposer, DepositInfo { owner: proposer, amount: deposit });
        self.put_proposal(id, Pip { id, proposal, state: ProposalState::Pending });
        // Add vote and update voting counter. It is impossible to overflow counters in the first
        // vote.
        let voted: DispatchResult = self.unsafe_vote(id, proposer, Vote::Yes(deposit));
        assert(voted is Ok);
        self.deposit_event(event);
        proof {
            let t = s.propose(
                proposer,
                proposal@,
                deposit,
                url_view(url),
                description_view(description),
                beneficiaries@,
            );
            assert(self@.deposits[id] =~= t.deposits[id]);
            assert(self@.proposal_votes[id] =~= t.proposal_votes[id]);
            assert(self@ =~= t);
        }
        voted
    }

    /// The owner of the proposal `id`, if it is the caller and the proposal can still be changed.
    fn owner_of(&self, origin: &Origin, id: PipId) -> (owner: Result<AccountId, DispatchError>)
        ensures
            match owner {
                Ok(who) => self@.owner_check(*origin, id) is Ok && who == origin.signer->0,
                Err(e) => self@.owner_check(*origin, id) == DispatchResult::Err(e),
            },
    {
        let proposer: AccountId = match origin.signer {
            Some(who) => who,
            None => return Err(DispatchError::BadOrigin),
        };
        let meta: &PipsMetadata = match self.proposal_metadata(id) {
            Some(meta) => meta,
            None => return Err(DispatchError::Module(Error::MismatchedProposalId)),
        };
        // 1. Only owner can change it.
        if meta.proposer != proposer {
            return Err(DispatchError::Module(Error::BadOrigin));
        }
        // Check that the proposal is pending
        match self.is_proposal_pending(id) {
            Ok(_) => {},
            Err(e) => return Err(e),
        }
        // 2. Proposal can be changed *ONLY* during its cool-off period.
        if meta.cool_off_until > self.block_number() {
            Ok(proposer)
        } else {
            Err(DispatchError::Module(Error::ProposalIsImmutable))
        }
    }

    /// It amends the `url` and the `description` of the proposal with id `id`.
    ///
    /// # Errors
    /// * `BadOrigin`: Only the owner of the proposal can amend it.
    /// * `ProposalIsImmutable`: A proposal is mutable only during its cool off period.
    pub fn amend_proposal(
        &mut self,
        origin: &Origin,
        id: PipId,
        url: Option<Url>,
        description: Option<PipDescription>,
    ) -> (result: DispatchResult)
        requires
            old(self).wf(),
        ensures
            final(self).wf(),
            result == old(self)@.owner_check(*origin, id),
            final(self)@ == if result is Ok {
                old(self)@.amend(
                    origin.signer->0,
                    id,
                    url_view(url),
                    description_view(description),
                )
            } else {
                old(self)@
            },
    {
        let proposer: AccountId = match self.owner_of(origin, id) {
            Ok(who) => who,
            Err(e) => return Err(e),
        };
        let ghost s = self@;
        proof {
            amend_keeps_inv(s, proposer, id, url_view(url), description_view(description));
        }
        // 3. Update proposal metadata.
        match self.take_metadata(id) {
            Some(meta) => {
                let amended: PipsMetadata = PipsMetadata {
                    proposer: meta.proposer,
                    id: meta.id,
                    end: meta.end,
                    url,
                    description,
                    cool_off_until: meta.cool_off_until,
                    beneficiaries: meta.beneficiaries,
                };
                self.put_metadata(id, amended);
            },
            None => {},
        }
        self.deposit_event(Event::ProposalAmended(proposer, id, true, 0));
        assert(self@.proposal_metadata =~= s.amend(
            proposer,
            id,
            url_view(url),
            description_view(description),
        ).proposal_metadata);
        Ok(())
    }

    /// It cancels the proposal of the id `id`.
    ///
    /// Proposals can be cancelled only during their cool-off period.
    ///
    /// # Errors
    /// * `BadOrigin`: Only the owner of the proposal can amend it.
    /// * `ProposalIsImmutable`: A Proposal is mutable only during its cool off period.
    pub fn cancel_proposal(&mut self, origin: &Origin, id: PipId) -> (result: DispatchResult)
        requires
            old(self).wf(),
        ensures
            final(self).wf(),
            result == old(self)@.owner_check(*origin, id),
            final(self)@ == if result is Ok {
                old(self)@.cancel(id)
            } else {
                old(self)@
            },
    {
        match self.owner_of(origin, id) {
            Ok(_) => {},
            Err(e) => return Err(e),
        }
        proof {
            cancel_keeps_inv(self@, id);
        }
        // 3. Refund the bond for the proposal
        self.refund_proposal(id);
        // 4. Close that proposal.
        self.update_proposal_state(id, ProposalState::Cancelled);
        self.prune_data(id);
        Ok(())
    }

    /// What is to be reserved before `additional_deposit` is added to the caller's deposit on the
    /// proposal `id`: the account, and as much of the amount as the deposit has room for.
    pub fn bond_request(&self, origin: &Origin, id: PipId, additional_deposit: Balance) -> (request:
        Result<(AccountId, Balance), DispatchError>)
        ensures
            match request {
                Ok(r) => self@.owner_check(*origin, id) is Ok && r.0 == origin.signer->0 && r.1
                    == self@.bond_amount(r.0, id, additional_deposit),
                Err(e) => self@.owner_check(*origin, id) == DispatchResult::Err(e),
            },
    {
        match self.owner_of(origin, id) {
            Ok(proposer) => {
                let curr_deposit: Balance = self.deposits(id, proposer).amount;
                let max_additional_deposit: Balance = curr_deposit.saturating_add(
                    additional_deposit,
                ) - curr_deposit;
                Ok((proposer, max_additional_deposit))
            },
            Err(e) => Err(e),
        }
    }

    /// Makes the owner's deposit on a proposal in its cool-off period one of `amount`.
    fn set_owner_deposit(&mut self, id: PipId, who: AccountId, amount: Balance)
        ensures
            final(self)@ == old(self)@.redeposit(who, id, amount),
    {
        self.put_deposit(id, who, DepositInfo { owner: who, amount });
        let stats: VotingResult<Balance> = self.proposal_result(id);
        self.put_result(id, VotingResult { ayes_stake: amount, ..stats });
        self.put_vote(id, who, Vote::Yes(amount));
    }

    /// It bonds an additional deposit to proposal with id `id`.
    /// That amount is added to the current deposit.
    ///
    /// # Arguments
    /// * `reserved` whether what [`Module::bond_request`] asks for could be reserved
    ///
    /// # Errors
    /// * `BadOrigin`: Only the owner of the proposal can bond an additional deposit.
    /// * `ProposalIsImmutable`: A Proposal is mutable only during its cool off period.
    pub fn bond_additional_deposit(
        &mut self,
        origin: &Origin,
        id: PipId,
        additional_deposit: Balance,
        reserved: bool,
    ) -> (result: DispatchResult)
        requires
            old(self).wf(),
        ensures
            final(self).wf(),
            result == old(self)@.bond_result(*origin, id, reserved),
            final(self)@ == if result is Ok {
                old(self)@.bond(origin.signer->0, id, additional_deposit)
            } else {
                old(self)@
            },
    {
        let request: (AccountId, Balance) = match self.bond_request(
            origin,
            id,
            additional_deposit,
        ) {
            Ok(request) => request,
            Err(e) => return Err(e),
        };
        if !reserved {
            return Err(DispatchError::Module(Error::InsufficientDeposit));
        }
        let ghost s = self@;
        proof {
            bond_keeps_inv(s, *origin, id, additional_deposit);
        }
        let proposer: AccountId = request.0;
        let curr_deposit: Balance = self.deposits(id, proposer).amount;
        self.set_owner_deposit(id, proposer, curr_deposit + request.1);
        self.deposit_event(Event::ProposalAmended(proposer, id, true, request.1));
        Ok(())
    }

    /// It unbonds any amount from the deposit of the proposal with id `id`.
    ///
    /// # Errors
    /// * `BadOrigin`: Only the owner of the proposal can release part of the deposit.
    /// * `ProposalIsImmutable`: A Proposal is mutable only during its cool off period.
    /// * `InsufficientDeposit`: If the final deposit will be less that the minimum deposit for
    /// a proposal.
    pub fn unbond_deposit(&mut self, origin: &Origin, id: PipId, amount: Balance) -> (result:
        DispatchResult)
        requires
            old(self).wf(),
        ensures
            final(self).wf(),
            result == old(self)@.unbond_result(*origin, id, amount),
            final(self)@ == if result is Ok {
                old(self)@.unbond(origin.signer->0, id, amount)
            } else {
                old(self)@
            },
    {
        let proposer: AccountId = match self.owner_of(origin, id) {
            Ok(who) => who,
            Err(e) => return Err(e),
        };
        // 3. Double-check that `amount` is valid.
        let depo_info: Deposit = self.deposits(id, proposer);
        let new_deposit: Balance = match depo_info.amount.checked_sub(amount) {
            Some(rest) => rest,
            None => return Err(DispatchError::Module(Error::InsufficientDeposit)),
        };
        if new_deposit < self.min_proposal_deposit() {
            return Err(DispatchError::Module(Error::InsufficientDeposit));
        }
        let ghost s = self@;
        proof {
            unbond_keeps_inv(s, *origin, id, amount);
            cool_off_has_one_voter(s, id);
            assert(s.sound(id));
            lemma_lookup_entry(s.deposits[id], 0);
        }
        // 3.1. Unreserve and update deposit info.
        self.leave(Effect::Unreserve { who: depo_info.owner, amount });
        // 4. Update vote details to record reduced vote
        self.set_owner_deposit(id, proposer, new_deposit);
        self.deposit_event(Event::ProposalAmended(proposer, id, false, amount));
        Ok(())
    }

    /// What is to be reserved before the caller votes on the proposal `id` with the deposit
    /// `deposit`: the account and the amount.
    pub fn vote_request(&self, origin: &Origin, id: PipId, deposit: Balance) -> (request: Result<
        (AccountId, Balance),
        DispatchError,
    >)
        ensures
            match request {
                Ok(r) => self@.vote_check(*origin, id) is Ok && r == (origin.signer->0, deposit),
                Err(e) => self@.vote_check(*origin, id) == DispatchResult::Err(e),
            },
    {
        let proposer: AccountId = match origin.signer {
            Some(who) => who,
            None => return Err(DispatchError::BadOrigin),
        };
        let meta: &PipsMetadata = match self.proposal_metadata(id) {
            Some(meta) => meta,
            None => return Err(DispatchError::Module(Error::MismatchedProposalId)),
        };
        // No one should be able to vote during the proposal cool-off period.
        if meta.cool_off_until > self.block_number() {
            return Err(DispatchError::Module(Error::ProposalOnCoolOffPeriod));
        }
        // Check that the proposal is pending
        match self.is_proposal_pending(id) {
            Ok(_) => {},
            Err(e) => return Err(e),
        }
        // Valid PipId
        if !self.has_proposal_result(id) {
            return Err(DispatchError::Module(Error::NoSuchProposal));
        }
        // Double-check vote duplication.
        match self.proposal_vote(id, proposer) {
            Vote::NotCast => Ok((proposer, deposit)),
            _ => Err(DispatchError::Module(Error::DuplicateVote)),
        }
    }

    /// A network member can vote on any Mesh Improvement Proposal by selecting the id that
    /// corresponds to the dispatchable action and vote with some balance.
    ///
    /// # Arguments
    /// * `id` proposal id
    /// * `aye_or_nay` a bool representing for or against vote
    /// * `deposit` minimum deposit value
    /// * `reserved` whether what [`Module::vote_request`] asks for could be reserved
    pub fn vote(
        &mut self,
        origin: &Origin,
        id: PipId,
        aye_or_nay: bool,
        deposit: Balance,
        reserved: bool,
    ) -> (result: DispatchResult)
        requires
            old(self).wf(),
        ensures
            final(self).wf(),
            result == old(self)@.vote_result(*origin, id, aye_or_nay, deposit, reserved),
            final(self)@ == old(self)@.vote(*origin, id, aye_or_nay, deposit, reserved),
    {
        let proposer: AccountId = match self.vote_request(origin, id, deposit) {
            Ok(request) => request.0,
            Err(e) => return Err(e),
        };
        if !reserved {
            return Err(DispatchError::Module(Error::InsufficientDeposit));
        }
        let ghost s = self@;
        proof {
            vote_keeps_inv(s, *origin, id, aye_or_nay, deposit, reserved);
        }
        // Save your vote.
        let vote: Vote<Balance> = if aye_or_nay {
            Vote::Yes(deposit)
        } else {
            Vote::No(deposit)
        };
        match self.unsafe_vote(id, proposer, vote) {
            Ok(_) => {},
            Err(e) => {
                self.leave(Effect::Unreserve { who: proposer, amount: deposit });
                return Err(e);
            },
        }
        self.put_deposit(id, proposer, DepositInfo { owner: proposer, amount: deposit });
        self.deposit_event(Event::Voted(proposer, id, aye_or_nay, deposit));
        Ok(())
    }

    /// An emergency stop measure to kill a proposal. Governance committee can kill
    /// a proposal at any time.
    pub fn kill_proposal(&mut self, origin: &Origin, id: PipId) -> (result: DispatchResult)
        requires
            old(self).wf(),
        ensures
            final(self).wf(),
            result == old(self)@.kill_result(*origin, id),
            final(self)@ == if result is Ok {
                old(self)@.kill(id)
            } else {
                old(self)@
            },
    {
        if !origin.committee {
            return Err(DispatchError::Module(Error::BadOrigin));
        }
        if self.proposals(id).is_none() {
            return Err(DispatchError::Module(Error::NoSuchProposal));
        }
        // Check that the proposal is pending
        match self.is_proposal_pending(id) {
            Ok(_) => {},
            Err(e) => return Err(e),
        }
        proof {
            kill_keeps_inv(self@, id);
        }
        self.refund_proposal(id);
        self.update_proposal_state(id, ProposalState::Killed);
        self.prune_data(id);
        Ok(())
    }
}

// Referendums.
impl Module {
    /// Any governance committee member can fast track a proposal and turn it into a referendum
    /// that will be voted on by the committee.
    pub fn fast_track_proposal(
        &mut self,
        origin: &Origin,
        id: PipId,
        committee: &Committee,
    ) -> (result: DispatchResult)
        requires
            old(self).wf(),
            old(self)@.fast_track_result(*origin, id) is Ok && committee.members < 2
                ==> old(self)@.enactment_fits(),
        ensures
            final(self).wf(),
            result == old(self)@.fast_track_result(*origin, id),
            final(self)@ == if result is Ok {
                old(self)@.fast_track(id, committee.members)
            } else {
                old(self)@
            },
    {
        match committee_member(origin) {
            Ok(_) => {},
            Err(e) => return Err(e),
        }
        // Check that the proposal exists and is pending
        match self.is_proposal_pending(id) {
            Ok(_) => {},
            Err(e) => return Err(e),
        }
        proof {
            fast_track_keeps_inv(self@, id, committee.members);
        }
        self.create_referendum(id, ReferendumType::FastTracked, committee.members);
        self.refund_proposal(id);
        Ok(())
    }

    /// Governance committee can make a proposal that automatically becomes a referendum on
    /// which the committee can vote on.
    pub fn emergency_referendum(
        &mut self,
        origin: &Origin,
        proposal: EncodedCall,
        url: Option<Url>,
        description: Option<PipDescription>,
        beneficiaries: Vec<Beneficiary<Balance>>,
        committee: &Committee,
    ) -> (result: DispatchResult)
        requires
            old(self).wf(),
            State::member_check(*origin) is Ok ==> old(self)@.pip_id_sequence < u32::MAX && (
            committee.members < 2 ==> old(self)@.enactment_fits()),
        ensures
            final(self).wf(),
            result == State::member_check(*origin),
            final(self)@ == if result is Ok {
                old(self)@.emergency(
                    origin.signer->0,
                    proposal@,
                    url_view(url),
                    description_view(description),
                    beneficiaries@,
                    committee.members,
                )
            } else {
                old(self)@
            },
    {
        let proposer: AccountId = match committee_member(origin) {
            Ok(who) => who,
            Err(e) => return Err(e),
        };
        let ghost s = self@;
        proof {
            emergency_keeps_inv(
                s,
                proposer,
                proposal@,
                url_view(url),
                description_view(description),
                beneficiaries@,
                committee.members,
            );
        }
        let id: PipId = self.next_pip_id();
        let data: ProposalData = self.reportable_proposal_data(&proposal);
        let event: Event = Event::ProposalCreated(
            proposer,
            id,
            0,
            clone_url(&url),
            clone_description(&description),
            0,
            0,
            data,
        );
        self.put_proposal(id, Pip { id, proposal, state: ProposalState::Pending });
        self.put_metadata(
            id,
            PipsMetadata {
                proposer,
                id,
                end: 0,
                url,
                description,
                cool_off_until: 0,
                beneficiaries,
            },
        );
        self.deposit_event(event);
        self.create_referendum(id, ReferendumType::Emergency, committee.members);
        Ok(())
    }

    /// Moves a referendum instance into dispatch queue.
    pub fn enact_referendum(&mut self, origin: &Origin, id: PipId) -> (result: DispatchResult)
        requires
            old(self).wf(),
            old(self)@.ratify_result(*origin, id) is Ok ==> old(self)@.enactment_fits(),
        ensures
            final(self).wf(),
            result == old(self)@.ratify_result(*origin, id),
            final(self)@ == if result is Ok {
                old(self)@.schedule(id)
            } else {
                old(self)@
            },
    {
        if !origin.voting_majority {
            return Err(DispatchError::Module(Error::BadOrigin));
        }
        // Check that referendum is Pending
        match self.is_referendum_pending(id) {
            Ok(_) => {},
            Err(e) => return Err(e),
        }
        proof {
            schedule_keeps_inv(self@, id);
        }
        self.prepare_to_dispatch(id)
    }

    /// Moves a referendum instance into rejected state.
    pub fn reject_referendum(&mut self, origin: &Origin, id: PipId) -> (result: DispatchResult)
        requires
            old(self).wf(),
        ensures
            final(self).wf(),
            result == old(self)@.ratify_result(*origin, id),
            final(self)@ == if result is Ok {
                old(self)@.reject(id)
            } else {
                old(self)@
            },
    {
        if !origin.voting_majority {
            return Err(DispatchError::Module(Error::BadOrigin));
        }
        // Check that referendum is Pending
        match self.is_referendum_pending(id) {
            Ok(_) => {},
            Err(e) => return Err(e),
        }
        proof {
            reject_keeps_inv(self@, id);
        }
        // Close proposal
        self.update_referendum_state(id, ReferendumState::Rejected);
        self.prune_data(id);
        Ok(())
    }

    /// It updates the enactment period of a specific referendum.
    ///
    /// # Arguments
    /// * `until`, It defines the future block where the enactment period will finished.  A
    /// `None` value means that enactment period is going to finish in the next block.
    ///
    /// # Errors
    /// * `BadOrigin`, Only the release coordinator can update the enactment period.
    pub fn set_referendum_enactment_period(
        &mut self,
        origin: &Origin,
        mid: PipId,
        until: Option<BlockNumber>,
        committee: &Committee,
    ) -> (result: DispatchResult)
        requires
            old(self).wf(),
            State::coordinator_check(*origin, committee.release_coordinator) is Ok
                ==> old(self)@.block_number < BlockNumber::MAX,
        ensures
            final(self).wf(),
            result == old(self)@.reschedule_result(
                *origin,
                mid,
                until,
                committee.release_coordinator,
            ),
            final(self)@ == if result is Ok {
                old(self)@.reschedule(mid, old(self)@.reschedule_to(until) as BlockNumber)
            } else {
                old(self)@
            },
    {
        // 1. Only release coordinator
        if origin.signer.is_none() {
            return Err(DispatchError::BadOrigin);
        }
        let did: IdentityId = match origin.identity {
            Ok(did) => did,
            Err(e) => return Err(DispatchError::Foreign(e)),
        };
        match committee.release_coordinator {
            Some(coordinator) => if coordinator != did {
                return Err(DispatchError::Module(Error::BadOrigin));
            },
            None => return Err(DispatchError::Module(Error::BadOrigin)),
        }
        // 2. New value should be valid block number.
        let next_block: BlockNumber = self.block_number() + 1;
        let new_until: BlockNumber = match until {
            Some(block) => block,
            None => next_block,
        };
        if new_until < next_block {
            return Err(DispatchError::Module(Error::InvalidFutureBlockNumber));
        }
        // 2. Valid referendum: check mid & state == Scheduled
        let referendum: Referendum = match self.referendums(mid) {
            Some(referendum) => referendum,
            None => return Err(DispatchError::Module(Error::MismatchedProposalId)),
        };
        if referendum.state != ReferendumState::Scheduled {
            return Err(DispatchError::Module(Error::ReferendumIsImmutable));
        }
        let ghost s = self@;
        proof {
            reschedule_keeps_inv(s, mid, new_until);
        }
        // 3. Update enactment period.
        let old_until: BlockNumber = referendum.enactment_period;
        self.put_referendum(mid, Referendum { enactment_period: new_until, ..referendum });
        // 3.1. Re-schedule it
        let ids: Vec<PipId> = self.take_scheduled(old_until);
        let rest: Vec<PipId> = without(&ids, mid);
        self.put_scheduled(old_until, rest);
        assert(self@.scheduled_referendums_at =~= s.unschedule(mid, old_until));
        self.append_scheduled(new_until, mid);
        self.deposit_event(Event::ReferendumScheduled(mid, old_until, new_until));
        Ok(())
    }

    /// The call that the execution of the referendum `id` is to dispatch, as root; none where the
    /// proposal is not at the referendum stage. What comes of it is to be handed to
    /// [`Module::complete_referendum`].
    pub fn execute_referendum(&self, id: PipId) -> (call: Option<EncodedCall>)
        ensures
            match call {
                Some(c) => self@.in_state(id, ProposalState::Referendum) && c@
                    == self@.proposals[id].proposal,
                None => !self@.in_state(id, ProposalState::Referendum),
            },
    {
        match self.proposals(id) {
            Some(proposal) => if proposal.state == ProposalState::Referendum {
                Some(copy_bytes(proposal.proposal.as_slice()))
            } else {
                None
            },
            None => None,
        }
    }

    /// Asks for the payments that the beneficiaries of the proposal `id` are owed.
    pub(crate) fn pay_to_beneficiaries(&mut self, id: PipId)
        ensures
            final(self)@ == if old(self)@.proposal_metadata.contains_key(id) {
                State {
                    outbox: old(self)@.outbox + payments_to(
                        old(self)@.proposal_metadata[id].beneficiaries,
                    ),
                    ..old(self)@
                }
            } else {
                old(self)@
            },
    {
        let ghost s = self@;
        let beneficiaries: Vec<Beneficiary<Balance>> = match self.proposal_metadata(id) {
            Some(meta) => copy_list(&meta.beneficiaries),
            None => return,
        };
        let ghost owed = payments_to(beneficiaries@);
        let mut i: usize = 0;
        assert(s.outbox + owed.take(0) =~= s.outbox);
        while i < beneficiaries.len()
            invariant
                i <= beneficiaries.len(),
                owed == payments_to(beneficiaries@),
                self@ == (State { outbox: s.outbox + owed.take(i as int), ..s }),
            decreases beneficiaries.len() - i,
        {
            let b: Beneficiary<Balance> = beneficiaries[i];
            self.leave(Effect::Disburse { to: b.id, amount: b.amount });
            i = i + 1;
            assert(self@.outbox =~= s.outbox + owed.take(i as int));
        }
        assert(owed.take(i as int) =~= owed);
    }

    /// Records whether the call of the referendum `id`, which [`Module::execute_referendum`] gave,
    /// was dispatched with success. On success the beneficiaries of the proposal are to be paid;
    /// either way it is closed.
    pub fn complete_referendum(&mut self, id: PipId, success: bool)
        requires
            old(self).wf(),
            old(self)@.in_state(id, ProposalState::Referendum),
        ensures
            final(self).wf(),
            final(self)@ == old(self)@.complete(id, success),
    {
        proof {
            complete_keeps_inv(self@, id, success);
        }
        if success {
            self.update_referendum_state(id, ReferendumState::Executed);
            self.pay_to_beneficiaries(id);
        } else {
            self.update_referendum_state(id, ReferendumState::Failed);
        }
        self.prune_data(id);
    }
}

// Blocks.
impl Module {
    /// Whether the community has accepted the proposal `id`.
    fn is_accepted(&self, id: PipId) -> (accepted: bool)
        ensures
            accepted == self@.accepted(id),
    {
        let voting: VotingResult<Balance> = self.proposal_result(id);
        // 1. Ayes staked must be more than nays staked (simple majority)
        // 2. Ayes staked must reach the minimum quorum threshold
        voting.ayes_stake > voting.nays_stake && voting.ayes_stake >= self.quorum_threshold()
    }

    /// Ends the voting on the proposal `id`, if it is still pending.
    fn settle(&mut self, id: PipId, members: u32)
        requires
            old(self)@.pending(id) && old(self)@.accepted(id) && members < 2
                ==> old(self)@.enactment_fits(),
        ensures
            final(self)@ == old(self)@.settle(id, members),
    {
        // It is possible the proposal has been killed, cancelled or fast tracked
        if self.is_proposal_pending(id).is_ok() {
            // Tally votes and create referendums
            if self.is_accepted(id) {
                self.refund_proposal(id);
                self.create_referendum(id, ReferendumType::Community, members);
            } else {
                self.update_proposal_state(id, ProposalState::Rejected);
                self.refund_proposal(id);
                self.prune_data(id);
            }
        }
    }

    /// Runs the following procedure:
    /// 1. Find all proposals that need to end as of this block and close voting
    /// 2. Tally votes
    /// 3. Submit any proposals that meet the quorum threshold, to the governance committee
    /// 4. Hand out the referendums that are due, to be executed in this order by
    ///    [`Module::execute_referendum`], and then [`Module::clear_schedule`]
    pub fn end_block(&mut self, block_number: BlockNumber, committee: &Committee) -> (due: Vec<
        PipId,
    >)
        requires
            old(self).wf(),
            old(self)@.end_block_fits(block_number, committee.members),
        ensures
            final(self).wf(),
            due@ == old(self)@.due(block_number, committee.members),
            final(self)@ == old(self)@.end_block(block_number, committee.members),
    {
        let ghost s = self@;
        let members: u32 = committee.members;
        proof {
            end_block_keeps_inv(s, block_number, members);
        }
        // Find all matured proposals...
        let ids: Vec<PipId> = self.take_maturing(block_number);
        let ghost m = self@;
        assert forall|i: PipId| #[trigger] m.sound(i) by {
            assert(s.sound(i));
        }
        let mut i: usize = 0;
        assert(ids@.take(0) =~= Seq::empty());
        while i < ids.len()
            invariant
                i <= ids.len(),
                ids@ == seq_at(s.proposals_maturing_at, block_number),
                s.end_block_fits(block_number, members),
                m == s.mature(block_number),
                forall|j: PipId| #[trigger] m.sound(j),
                self@ == m.settle_all(ids@.take(i as int), members),
            decreases ids.len() - i,
        {
            let id: PipId = ids[i];
            proof {
                lemma_settle_all(m, ids@.take(i as int), members);
                if self@.pending(id) && self@.accepted(id) {
                    assert(m.pending(id));
                    assert(s.pending(seq_at(s.proposals_maturing_at, block_number)[i as int]));
                }
            }
            self.settle(id, members);
            i = i + 1;
            assert(ids@.take(i as int).drop_last() =~= ids@.take(i - 1));
        }
        assert(ids@.take(i as int) =~= ids@);
        // Execute automatically referendums after its enactment period.
        self.take_scheduled(block_number)
    }

    /// Drops what is still on the schedule for the block `block_number`, once the referendums
    /// that were due at it have been executed.
    pub fn clear_schedule(&mut self, block_number: BlockNumber)
        requires
            old(self).wf(),
        ensures
            final(self).wf(),
            final(self)@ == old(self)@.clear_schedule(block_number),
    {
        let _ = self.take_scheduled(block_number);
        proof {
            records_alone_matter(old(self)@, self@);
        }
    }

    /// When constructing a block check if it's time for a ballot to end. If ballot ends,
    /// proceed to ratification process. Hands out the referendums that are due.
    pub fn on_initialize(&mut self, n: BlockNumber, committee: &Committee) -> (due: Vec<PipId>)
        requires
            old(self).wf(),
            old(self)@.block_number <= n,
            old(self)@.begin_block(n).end_block_fits(n, committee.members),
        ensures
            final(self).wf(),
            due@ == old(self)@.begin_block(n).due(n, committee.members),
            final(self)@ == old(self)@.begin_block(n).end_block(n, committee.members),
    {
        proof {
            begin_block_keeps_inv(self@, n);
        }
        self.put_block_number(n);
        self.end_block(n, committee)
    }
}

// Parameters.
impl Module {
    /// Change whether completed PIPs are pruned. Can only be called by governance council
    pub fn set_prune_historical_pips(&mut self, origin: &Origin, new_value: bool) -> (result:
        DispatchResult)
        requires
            old(self).wf(),
        ensures
            final(self).wf(),
            result == State::committee_check(*origin),
            final(self)@ == if result is Ok {
                old(self)@.set_prune_historical_pips(new_value)
            } else {
                old(self)@
            },
    {
        if !origin.committee {
            return Err(DispatchError::Module(Error::BadOrigin));
        }
        let config: Config = self.config();
        self.put_config(Config { prune_historical_pips: new_value, ..config });
        self.deposit_event(Event::PruningHistoricalPips(config.prune_historical_pips, new_value));
        proof {
            records_alone_matter(old(self)@, self@);
        }
        Ok(())
    }

    /// Change the minimum proposal deposit amount required to start a proposal. Only Governance
    /// committee is allowed to change this value.
    ///
    /// # Arguments
    /// * `deposit` the new min deposit required to start a proposal
    pub fn set_min_proposal_deposit(&mut self, origin: &Origin, deposit: Balance) -> (result:
        DispatchResult)
        requires
            old(self).wf(),
        ensures
            final(self).wf(),
            result == State::committee_check(*origin),
            final(self)@ == if result is Ok {
                old(self)@.set_min_proposal_deposit(deposit)
            } else {
                old(self)@
            },
    {
        if !origin.committee {
            return Err(DispatchError::Module(Error::BadOrigin));
        }
        let config: Config = self.config();
        self.put_config(Config { min_proposal_deposit: deposit, ..config });
        self.deposit_event(
            Event::MinimumProposalDepositChanged(config.min_proposal_deposit, deposit),
        );
        proof {
            records_alone_matter(old(self)@, self@);
        }
        Ok(())
    }

    /// Change the quorum threshold amount. This is the amount which a proposal must gather so
    /// as to be considered by a committee. Only Governance committee is allowed to change
    /// this value.
    ///
    /// # Arguments
    /// * `threshold` the new quorum threshold amount value
    pub fn set_quorum_threshold(&mut self, origin: &Origin, threshold: Balance) -> (result:
        DispatchResult)
        requires
            old(self).wf(),
        ensures
            final(self).wf(),
            result == State::committee_check(*origin),
            final(self)@ == if result is Ok {
                old(self)@.set_quorum_threshold(threshold)
            } else {
                old(self)@
            },
    {
        if !origin.committee {
            return Err(DispatchError::Module(Error::BadOrigin));
        }
        let config: Config = self.config();
        self.put_config(Config { quorum_threshold: threshold, ..config });
        self.deposit_event(Event::QuorumThresholdChanged(config.quorum_threshold, threshold));
        proof {
            records_alone_matter(old(self)@, self@);
        }
        Ok(())
    }

    /// Change the proposal duration value. This is the number of blocks for which votes are
    /// accepted on a proposal. Only Governance committee is allowed to change this value.
    ///
    /// # Arguments
    /// * `duration` proposal duration in blocks
    pub fn set_proposal_duration(&mut self, origin: &Origin, duration: BlockNumber) -> (result:
        DispatchResult)
        requires
            old(self).wf(),
        ensures
            final(self).wf(),
            result == State::committee_check(*origin),
            final(self)@ == if result is Ok {
                old(self)@.set_proposal_duration(duration)
            } else {
                old(self)@
            },
    {
        if !origin.committee {
            return Err(DispatchError::Module(Error::BadOrigin));
        }
        let config: Config = self.config();
        self.put_config(Config { proposal_duration: duration, ..config });
        self.deposit_event(Event::ProposalDurationChanged(config.proposal_duration, duration));
        proof {
            records_alone_matter(old(self)@, self@);
        }
        Ok(())
    }

    /// Change the default enact period.
    pub fn set_default_enact_period(&mut self, origin: &Origin, duration: BlockNumber) -> (result:
        DispatchResult)
        requires
            old(self).wf(),
        ensures
            final(self).wf(),
            result == State::committee_check(*origin),
            final(self)@ == if result is Ok {
                old(self)@.set_default_enact_period(duration)
            } else {
                old(self)@
            },
    {
        if !origin.committee {
            return Err(DispatchError::Module(Error::BadOrigin));
        }
        let config: Config = self.config();
        self.put_config(Config { default_enactment_period: duration, ..config });
        self.deposit_event(
            Event::DefaultEnactmentPeriodChanged(config.default_enactment_period, duration),
        );
        proof {
            records_alone_matter(old(self)@, self@);
        }
        Ok(())
    }
}

// Queries.
impl Module {
    /// Whether a referendum can be enacted now: the block at which it would be executed has a
    /// number.
    pub fn enactment_fits(&self) -> (fits: bool)
        ensures
            fits == self@.enactment_fits(),
    {
        self.block_number().checked_add(self.default_enactment_period()).is_some()
    }

    /// Whether a proposal can be made now: there is an id for it, and the block at which its voting
    /// would end has a number.
    pub fn proposal_fits(&self) -> (fits: bool)
        ensures
            fits == self@.proposal_fits(),
    {
        if self.pip_id_sequence() == u32::MAX {
            return false;
        }
        match self.block_number().checked_add(self.proposal_cool_off_period()) {
            Some(cool_off_until) => cool_off_until.checked_add(self.proposal_duration()).is_some(),
            None => false,
        }
    }

    /// Whether a proposal is accepted when the voting at the block `block` ends.
    fn accepts_at(&self, block: BlockNumber) -> (accepts: bool)
        ensures
            accepts == exists|i: int|
                0 <= i < seq_at(self@.proposals_maturing_at, block).len() && self@.pending(
                    #[trigger] seq_at(self@.proposals_maturing_at, block)[i],
                ) && self@.accepted(seq_at(self@.proposals_maturing_at, block)[i]),
    {
        let ids: Vec<PipId> = self.proposals_maturing_at(block);
        let mut i: usize = 0;
        while i < ids.len()
            invariant
                i <= ids.len(),
                ids@ == seq_at(self@.proposals_maturing_at, block),
                forall|j: int|
                    0 <= j < i ==> !(self@.pending(
                        #[trigger] seq_at(self@.proposals_maturing_at, block)[j],
                    ) && self@.accepted(seq_at(self@.proposals_maturing_at, block)[j])),
            decreases ids.len() - i,
        {
            let id: PipId = ids[i];
            if self.is_proposal_pending(id).is_ok() && self.is_accepted(id) {
                assert(self@.pending(seq_at(self@.proposals_maturing_at, block)[i as int]));
                return true;
            }
            i = i + 1;
        }
        false
    }

    /// Whether the voting at the block `block` can be ended now: where a proposal is accepted at it
    /// and the committee is too small to vote on it, the block at which it would be executed has a
    /// number.
    pub fn end_block_fits(&self, block: BlockNumber, committee: &Committee) -> (fits: bool)
        ensures
            fits == self@.end_block_fits(block, committee.members),
    {
        committee.members >= 2 || self.enactment_fits() || !self.accepts_at(block)
    }

    /// Whether the block `n` can be begun: where a proposal is accepted at it and the committee is
    /// too small to vote on it, the block at which it would be executed has a number.
    pub fn block_fits(&self, n: BlockNumber, committee: &Committee) -> (fits: bool)
        ensures
            fits == self@.begin_block(n).end_block_fits(n, committee.members),
    {
        let ghost t = self@.begin_block(n);
        let accepts: bool = self.accepts_at(n);
        assert(forall|id: PipId| #[trigger] t.pending(id) == self@.pending(id));
        assert(forall|id: PipId| #[trigger] t.accepted(id) == self@.accepted(id));
        assert(t.proposals_maturing_at == self@.proposals_maturing_at);
        committee.members >= 2 || n.checked_add(self.default_enactment_period()).is_some()
            || !accepts
    }

    /// Retrieve votes for a proposal represented by PipId `id`.
    pub fn get_votes(&self, id: PipId) -> (votes: VoteCount<Balance>)
        ensures
            votes == if self@.proposal_result.contains_key(id) {
                VoteCount::Success {
                    ayes: self@.proposal_result[id].ayes_stake,
                    nays: self@.proposal_result[id].nays_stake,
                }
            } else {
                VoteCount::ProposalNotFound
            },
    {
        if !self.has_proposal_result(id) {
            return VoteCount::ProposalNotFound;
        }
        let voting: VotingResult<Balance> = self.proposal_result(id);
        VoteCount::Success { ayes: voting.ayes_stake, nays: voting.nays_stake }
    }

    /// Retrieve proposals made by `address`, in no particular order.
    pub fn proposed_by(&self, address: AccountId) -> (ids: Vec<PipId>)
        ensures
            ids@.no_duplicates(),
            forall|id: PipId|
                ids@.contains(id) <==> self@.proposal_metadata.contains_key(id)
                    && self@.proposal_metadata[id].proposer == address,
    {
        let known: Vec<PipId> = self.known_ids();
        let ghost made = |id: PipId| self@.proposal_metadata[id].proposer == address;
        let mut ids: Vec<PipId> = Vec::new();
        let mut i: usize = 0;
        while i < known.len()
            invariant
                i <= known.len(),
                known@.no_duplicates(),
                forall|id: PipId|
                    known@.contains(id) <==> self@.proposal_metadata.contains_key(id),
                made == (|id: PipId| self@.proposal_metadata[id].proposer == address),
                selected(ids@, known@.take(i as int), made),
            decreases known.len() - i,
        {
            let id: PipId = known[i];
            proof {
                lemma_select(ids@, known@, i as int, made);
            }
            assert(known@.contains(id));
            match self.proposal_metadata(id) {
                Some(meta) => if meta.proposer == address {
                    ids.push(id);
                },
                None => {},
            }
            i = i + 1;
        }
        assert(known@.take(i as int) =~= known@);
        ids
    }

    /// Retrieve proposals `address` voted on, in no particular order.
    pub fn voted_on(&self, address: AccountId) -> (ids: Vec<PipId>)
        ensures
            ids@.no_duplicates(),
            forall|id: PipId|
                ids@.contains(id) <==> self@.proposal_metadata.contains_key(id) && self@.vote_of(
                    id,
                    address,
                ) != Vote::<Balance>::NotCast,
    {
        let known: Vec<PipId> = self.known_ids();
        let ghost voted = |id: PipId| self@.vote_of(id, address) != Vote::<Balance>::NotCast;
        let mut ids: Vec<PipId> = Vec::new();
        let mut i: usize = 0;
        while i < known.len()
            invariant
                i <= known.len(),
                known@.no_duplicates(),
                forall|id: PipId|
                    known@.contains(id) <==> self@.proposal_metadata.contains_key(id),
                voted == (|id: PipId| self@.vote_of(id, address) != Vote::<Balance>::NotCast),
                selected(ids@, known@.take(i as int), voted),
            decreases known.len() - i,
        {
            let id: PipId = known[i];
            proof {
                lemma_select(ids@, known@, i as int, voted);
            }
            match self.proposal_vote(id, address) {
                Vote::NotCast => {},
                _ => ids.push(id),
            }
            i = i + 1;
        }
        assert(known@.take(i as int) =~= known@);
        ids
    }
}

/// Whether `ids` are those of `all` of which `wanted` holds, each once.
spec fn selected(ids: Seq<PipId>, all: Seq<PipId>, wanted: spec_fn(PipId) -> bool) -> bool {
    &&& ids.no_duplicates()
    &&& forall|id: PipId| ids.contains(id) <==> all.contains(id) && wanted(id)
}

/// How a selection goes on with the next of all ids.
proof fn lemma_select(
    ids: Seq<PipId>,
    all: Seq<PipId>,
    i: int,
    wanted: spec_fn(PipId) -> bool,
)
    requires
        all.no_duplicates(),
        0 <= i < all.len(),
        selected(ids, all.take(i), wanted),
    ensures
        wanted(all[i]) ==> selected(ids.push(all[i]), all.take(i + 1), wanted),
        !wanted(all[i]) ==> selected(ids, all.take(i + 1), wanted),
{
    let before = all.take(i);
    let after = all.take(i + 1);
    let id = all[i];
    assert(after =~= before.push(id));
    assert(!before.contains(id));
    assert(!ids.contains(id));
    let more = ids.push(id);
    assert forall|x: PipId| more.contains(x) <==> ids.contains(x) || x == id by {
        lemma_push_contains(ids, id, x);
    }
    assert forall|x: PipId| after.contains(x) <==> before.contains(x) || x == id by {
        lemma_push_contains(before, id, x);
    }
}

/// The account of a caller that is a member of the governance committee.
fn committee_member(origin: &Origin) -> (who: Result<AccountId, DispatchError>)
    ensures
        match who {
            Ok(w) => State::member_check(*origin) is Ok && w == origin.signer->0,
            Err(e) => State::member_check(*origin) == DispatchResult::Err(e),
        },
{
    let proposer: AccountId = match origin.signer {
        Some(who) => who,
        None => return Err(DispatchError::BadOrigin),
    };
    match origin.identity {
        Ok(_) => if origin.committee_member {
            Ok(proposer)
        } else {
            Err(DispatchError::Module(Error::NotACommitteeMember))
        },
        Err(e) => Err(DispatchError::Foreign(e)),
    }
}

/// The list `ids` without the id `id`.
fn without(ids: &Vec<PipId>, id: PipId) -> (rest: Vec<PipId>)
    ensures
        rest@ == ids@.filter(other_than(id)),
{
    let mut rest: Vec<PipId> = Vec::new();
    let mut i: usize = 0;
    proof {
        reveal(Seq::filter);
        assert(ids@.take(0) =~= Seq::empty());
    }
    while i < ids.len()
        invariant
            i <= ids.len(),
            rest@ == ids@.take(i as int).filter(other_than(id)),
        decreases ids.len() - i,
    {
        let other: PipId = ids[i];
        proof {
            reveal(Seq::filter);
            assert(ids@.take(i + 1).drop_last() =~= ids@.take(i as int));
        }
        if other != id {
            rest.push(other);
        }
        i = i + 1;
    }
    assert(ids@.take(i as int) =~= ids@);
    rest
}

/// What of the deposits `deposits` was released, where `left` is what could not be released of
/// each of them.
pub open spec fn released(deposits: Seq<Deposit>, left: Seq<Balance>) -> nat
    decreases deposits.len(),
{
    if deposits.len() == 0 {
        0
    } else {
        let n = deposits.len() - 1;
        released(deposits.drop_last(), left) + (if left[n] < deposits[n].amount {
            (deposits[n].amount - left[n]) as nat
        } else {
            0
        })
    }
}

/// The report of the refund of the proposal `id`: the total amount that was released, as far as a
/// balance can hold it.
pub open spec fn refund_report(id: PipId, deposits: Seq<Deposit>, left: Seq<Balance>) -> Event {
    Event::ProposalRefund(
        id,
        if released(deposits, left) > Balance::MAX {
            Balance::MAX
        } else {
            released(deposits, left) as Balance
        },
    )
}

/// The event that reports the refund of the proposal `id`, once each of its deposits has been
/// released but for what `left` says: the total amount that was released, as far as a balance can
/// hold it.
pub fn refund_event(id: PipId, deposits: &Vec<Deposit>, left: &Vec<Balance>) -> (event: Event)
    requires
        deposits.len() == left.len(),
    ensures
        event == refund_report(id, deposits@, left@),
{
    let mut total: Balance = 0;
    let mut i: usize = 0;
    while i < deposits.len()
        invariant
            i <= deposits.len(),
            deposits.len() == left.len(),
            total == if released(deposits@.take(i as int), left@) > Balance::MAX {
                Balance::MAX as nat
            } else {
                released(deposits@.take(i as int), left@)
            },
        decreases deposits.len() - i,
    {
        let amount: Balance = deposits[i].amount.saturating_sub(left[i]);
        total = amount.saturating_add(total);
        i = i + 1;
        assert(deposits@.take(i as int).drop_last() =~= deposits@.take(i - 1));
    }
    assert(deposits@.take(i as int) =~= deposits@);
    Event::ProposalRefund(id, total)
}

} // verus!
