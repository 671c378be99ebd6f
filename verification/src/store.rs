//! The stored state of the module: what is read from it and what is written to it.
use crate::ledger::{file, find, lookup, put, Ledger};
use crate::model::State;
use crate::snapshot::Snapshot;
use crate::table::{seq_at, Table};
use crate::types::{
    nobody, AccountId, Balance, BlockNumber, Config, Deposit, DepositInfo, Effect, EffectView,
    EncodedCall, Event, Pip, PipId, PipsMetadata, Referendum, Vote, VotingResult,
};
use vstd::prelude::*;

verus! {

/// The module: all proposals and referendums, with the votes and deposits on them.
pub struct Module {
    block_number: BlockNumber,
    config: Config,
    pip_id_sequence: u32,
    proposal_metadata: Table<PipsMetadata>,
    proposals_maturing_at: Table<Vec<PipId>>,
    deposits: Table<Ledger<Deposit>>,
    proposals: Table<Pip<EncodedCall>>,
    proposal_result: Table<VotingResult<Balance>>,
    proposal_votes: Table<Ledger<Vote<Balance>>>,
    referendums: Table<Referendum>,
    scheduled_referendums_at: Table<Vec<PipId>>,
    outbox: Vec<Effect>,
}

/// The views of some effects.
pub open spec fn effects_view(effects: Seq<Effect>) -> Seq<EffectView> {
    effects.map_values(|e: Effect| e@)
}

impl View for Module {
    type V = State;

    closed spec fn view(&self) -> State {
        State {
            block_number: self.block_number,
            config: self.config,
            pip_id_sequence: self.pip_id_sequence,
            proposal_metadata: self.proposal_metadata@,
            proposals_maturing_at: self.proposals_maturing_at@,
            deposits: self.deposits@,
            proposals: self.proposals@,
            proposal_result: self.proposal_result@,
            proposal_votes: self.proposal_votes@,
            referendums: self.referendums@,
            scheduled_referendums_at: self.scheduled_referendums_at@,
            outbox: effects_view(self.outbox@),
        }
    }
}

impl Module {
    /// Whether the state is one that the module can be in.
    pub open spec fn wf(&self) -> bool {
        self@.inv()
    }

    /// The module before the first block.
    pub fn new(config: Config) -> (module: Self)
        ensures
            module.wf(),
            module@ == State::genesis(config),
    {
        let module: Module = Module {
            block_number: 0,
            config,
            pip_id_sequence: 0,
            proposal_metadata: Table::new(),
            proposals_maturing_at: Table::new(),
            deposits: Table::new(),
            proposals: Table::new(),
            proposal_result: Table::new(),
            proposal_votes: Table::new(),
            referendums: Table::new(),
            scheduled_referendums_at: Table::new(),
            outbox: Vec::new(),
        };
        assert(module@.outbox =~= Seq::empty());
        proof {
            crate::soundness::genesis_is_sound(config);
        }
        module
    }
}

// What is read.
impl Module {
    /// The block that is being built.
    pub fn block_number(&self) -> (block: BlockNumber)
        ensures
            block == self@.block_number,
    {
        self.block_number
    }

    /// The parameters.
    pub fn config(&self) -> (config: Config)
        ensures
            config == self@.config,
    {
        self.config
    }

    /// The id that the next proposal gets.
    pub fn pip_id_sequence(&self) -> (id: PipId)
        ensures
            id == self@.pip_id_sequence,
    {
        self.pip_id_sequence
    }

    /// Whether the data of closed proposals is removed.
    pub fn prune_historical_pips(&self) -> (prune: bool)
        ensures
            prune == self@.config.prune_historical_pips,
    {
        self.config.prune_historical_pips
    }

    /// The minimum deposit for a proposal.
    pub fn min_proposal_deposit(&self) -> (deposit: Balance)
        ensures
            deposit == self@.config.min_proposal_deposit,
    {
        self.config.min_proposal_deposit
    }

    /// The minimum stake a proposal must gather in order to be considered by the committee.
    pub fn quorum_threshold(&self) -> (threshold: Balance)
        ensures
            threshold == self@.config.quorum_threshold,
    {
        self.config.quorum_threshold
    }

    /// The number of blocks during which the owner of a new proposal can change it.
    pub fn proposal_cool_off_period(&self) -> (period: BlockNumber)
        ensures
            period == self@.config.proposal_cool_off_period,
    {
        self.config.proposal_cool_off_period
    }

    /// How long (in blocks) a ballot runs.
    pub fn proposal_duration(&self) -> (duration: BlockNumber)
        ensures
            duration == self@.config.proposal_duration,
    {
        self.config.proposal_duration
    }

    /// The enactment period of a referendum that the committee accepts.
    pub fn default_enactment_period(&self) -> (period: BlockNumber)
        ensures
            period == self@.config.default_enactment_period,
    {
        self.config.default_enactment_period
    }

    /// The metadata of the proposal `id`.
    pub fn proposal_metadata(&self, id: PipId) -> (meta: Option<&PipsMetadata>)
        ensures
            match meta {
                Some(m) => self@.proposal_metadata.contains_key(id) && m@
                    == self@.proposal_metadata[id],
                None => !self@.proposal_metadata.contains_key(id),
            },
    {
        self.proposal_metadata.get(id)
    }

    /// The proposal `id`.
    pub fn proposals(&self, id: PipId) -> (pip: Option<&Pip<EncodedCall>>)
        ensures
            match pip {
                Some(p) => self@.proposals.contains_key(id) && p@ == self@.proposals[id],
                None => !self@.proposals.contains_key(id),
            },
    {
        self.proposals.get(id)
    }

    /// The tally of the proposal `id`.
    pub fn proposal_result(&self, id: PipId) -> (result: VotingResult<Balance>)
        ensures
            result == self@.result_of(id),
    {
        match self.proposal_result.get(id) {
            Some(result) => *result,
            None => VotingResult::default(),
        }
    }

    /// Whether there is a tally of the proposal `id`.
    pub fn has_proposal_result(&self, id: PipId) -> (found: bool)
        ensures
            found == self@.proposal_result.contains_key(id),
    {
        self.proposal_result.contains_key(id)
    }

    /// Whether deposits are held on the proposal `id`.
    pub(crate) fn has_deposits(&self, id: PipId) -> (found: bool)
        ensures
            found == self@.deposits.contains_key(id),
    {
        self.deposits.contains_key(id)
    }

    /// The vote of `who` on the proposal `id`.
    pub fn proposal_vote(&self, id: PipId, who: AccountId) -> (vote: Vote<Balance>)
        ensures
            vote == self@.vote_of(id, who),
    {
        match self.proposal_votes.get(id) {
            Some(votes) => match find(votes, who) {
                Some(vote) => vote,
                None => Vote::NotCast,
            },
            None => Vote::NotCast,
        }
    }

    /// The deposit of `who` on the proposal `id`; one of nothing where there is none.
    pub fn deposits(&self, id: PipId, who: AccountId) -> (deposit: Deposit)
        ensures
            deposit.amount == self@.deposit_of(id, who),
            match lookup(seq_at(self@.deposits, id), who) {
                Some(d) => deposit == d,
                None => nobody(deposit.owner),
            },
    {
        let found: Option<Deposit> = match self.deposits.get(id) {
            Some(deposits) => find(deposits, who),
            None => None,
        };
        match found {
            Some(deposit) => deposit,
            None => DepositInfo::default(),
        }
    }

    /// The referendum `id`.
    pub fn referendums(&self, id: PipId) -> (referendum: Option<Referendum>)
        ensures
            match referendum {
                Some(r) => self@.referendums.contains_key(id) && r == self@.referendums[id],
                None => !self@.referendums.contains_key(id),
            },
    {
        match self.referendums.get(id) {
            Some(referendum) => Some(*referendum),
            None => None,
        }
    }

    /// The proposals whose voting ends at the block `block`.
    pub fn proposals_maturing_at(&self, block: BlockNumber) -> (ids: Vec<PipId>)
        ensures
            ids@ == seq_at(self@.proposals_maturing_at, block),
    {
        match self.proposals_maturing_at.get(block) {
            Some(ids) => {
                let copy: Vec<PipId> = ids.clone();
                assert(copy@ =~= ids@);
                copy
            },
            None => Vec::new(),
        }
    }

    /// The referendums that are to be executed at the block `block`.
    pub fn scheduled_referendums_at(&self, block: BlockNumber) -> (ids: Vec<PipId>)
        ensures
            ids@ == seq_at(self@.scheduled_referendums_at, block),
    {
        match self.scheduled_referendums_at.get(block) {
            Some(ids) => {
                let copy: Vec<PipId> = ids.clone();
                assert(copy@ =~= ids@);
                copy
            },
            None => Vec::new(),
        }
    }

    /// The ids of all proposals that have metadata.
    pub(crate) fn known_ids(&self) -> (ids: Vec<PipId>)
        ensures
            ids@.no_duplicates(),
            forall|id: PipId| ids@.contains(id) <==> self@.proposal_metadata.contains_key(id),
    {
        self.proposal_metadata.keys()
    }
}

// What is kept elsewhere.
impl Module {
    /// The whole state, as plain values.
    pub fn into_snapshot(self) -> (snapshot: Snapshot)
        ensures
            snapshot@ == self@,
    {
        Snapshot {
            block_number: self.block_number,
            config: self.config,
            pip_id_sequence: self.pip_id_sequence,
            proposal_metadata: self.proposal_metadata.into_entries(),
            proposals_maturing_at: self.proposals_maturing_at.into_entries(),
            deposits: self.deposits.into_entries(),
            proposals: self.proposals.into_entries(),
            proposal_result: self.proposal_result.into_entries(),
            proposal_votes: self.proposal_votes.into_entries(),
            referendums: self.referendums.into_entries(),
            scheduled_referendums_at: self.scheduled_referendums_at.into_entries(),
            effects: self.outbox,
        }
    }

    /// The state that a snapshot holds, whether or not the module can be in it.
    pub(crate) fn assemble(snapshot: Snapshot) -> (module: Self)
        ensures
            module@ == snapshot@,
    {
        Module {
            block_number: snapshot.block_number,
            config: snapshot.config,
            pip_id_sequence: snapshot.pip_id_sequence,
            proposal_metadata: Table::from_entries(snapshot.proposal_metadata),
            proposals_maturing_at: Table::from_entries(snapshot.proposals_maturing_at),
            deposits: Table::from_entries(snapshot.deposits),
            proposals: Table::from_entries(snapshot.proposals),
            proposal_result: Table::from_entries(snapshot.proposal_result),
            proposal_votes: Table::from_entries(snapshot.proposal_votes),
            referendums: Table::from_entries(snapshot.referendums),
            scheduled_referendums_at: Table::from_entries(snapshot.scheduled_referendums_at),
            outbox: snapshot.effects,
        }
    }

    /// The deposits on the proposal `id`.
    pub(crate) fn deposits_on(&self, id: PipId) -> (deposits: Option<&Ledger<Deposit>>)
        ensures
            match deposits {
                Some(d) => self@.deposits.contains_key(id) && d@ == self@.deposits[id],
                None => !self@.deposits.contains_key(id),
            },
    {
        self.deposits.get(id)
    }

    /// The votes on the proposal `id`.
    pub(crate) fn votes_on(&self, id: PipId) -> (votes: Option<&Ledger<Vote<Balance>>>)
        ensures
            match votes {
                Some(v) => self@.proposal_votes.contains_key(id) && v@ == self@.proposal_votes[id],
                None => !self@.proposal_votes.contains_key(id),
            },
    {
        self.proposal_votes.get(id)
    }

    /// All ids that there is a record of; one can come several times.
    pub(crate) fn recorded_ids(&self) -> (ids: Vec<PipId>)
        ensures
            forall|id: PipId| #[trigger]
                ids@.contains(id) <==> {
                    ||| self@.proposal_metadata.contains_key(id)
                    ||| self@.deposits.contains_key(id)
                    ||| self@.proposals.contains_key(id)
                    ||| self@.proposal_result.contains_key(id)
                    ||| self@.proposal_votes.contains_key(id)
                    ||| self@.referendums.contains_key(id)
                },
    {
        let mut ids: Vec<PipId> = self.proposal_metadata.keys();
        gather(&mut ids, self.deposits.keys());
        gather(&mut ids, self.proposals.keys());
        gather(&mut ids, self.proposal_result.keys());
        gather(&mut ids, self.proposal_votes.keys());
        gather(&mut ids, self.referendums.keys());
        ids
    }

    /// The blocks for which there is a list of proposals whose voting ends.
    pub(crate) fn listed_blocks(&self) -> (blocks: Vec<BlockNumber>)
        ensures
            forall|block: BlockNumber| #[trigger]
                blocks@.contains(block) <==> self@.proposals_maturing_at.contains_key(block),
    {
        self.proposals_maturing_at.keys()
    }
}

/// Adds some ids to a list.
fn gather(ids: &mut Vec<PipId>, more: Vec<PipId>)
    ensures
        forall|id: PipId| #[trigger]
            final(ids)@.contains(id) <==> old(ids)@.contains(id) || more@.contains(id),
{
    let ghost before = ids@;
    let ghost added = more@;
    let mut more: Vec<PipId> = more;
    ids.append(&mut more);
    assert forall|id: PipId| #[trigger] ids@.contains(id) <==> before.contains(id)
        || added.contains(id) by {
        let n = before.len();
        if before.contains(id) {
            let k = choose|k: int| 0 <= k < n && before[k] == id;
            assert(ids@[k] == id);
        }
        if added.contains(id) {
            let k = choose|k: int| 0 <= k < added.len() && added[k] == id;
            assert(ids@[n + k] == id);
        }
        if ids@.contains(id) {
            let k = choose|k: int| 0 <= k < ids@.len() && ids@[k] == id;
            if k < n {
                assert(before[k] == id);
            } else {
                assert(added[k - n] == id);
            }
        }
    }
}

// What is written.
impl Module {
    /// Makes `block` the block that is being built.
    pub(crate) fn put_block_number(&mut self, block: BlockNumber)
        ensures
            final(self)@ == old(self)@.begin_block(block),
    {
        self.block_number = block;
    }

    /// Replaces the parameters.
    pub(crate) fn put_config(&mut self, config: Config)
        ensures
            final(self)@ == (State { config, ..old(self)@ }),
    {
        self.config = config;
    }

    /// Makes `id` the id that the next proposal gets.
    pub(crate) fn put_pip_id_sequence(&mut self, id: PipId)
        ensures
            final(self)@ == (State { pip_id_sequence: id, ..old(self)@ }),
    {
        self.pip_id_sequence = id;
    }

    /// Stores the metadata of the proposal `id`.
    pub(crate) fn put_metadata(&mut self, id: PipId, meta: PipsMetadata)
        ensures
            final(self)@ == (State {
                proposal_metadata: old(self)@.proposal_metadata.insert(id, meta@),
                ..old(self)@
            }),
    {
        self.proposal_metadata.insert(id, meta);
    }

    /// Removes the metadata of the proposal `id`, and hands it out.
    pub(crate) fn take_metadata(&mut self, id: PipId) -> (meta: Option<PipsMetadata>)
        ensures
            final(self)@ == (State {
                proposal_metadata: old(self)@.proposal_metadata.remove(id),
                ..old(self)@
            }),
            match meta {
                Some(m) => old(self)@.proposal_metadata.contains_key(id) && m@
                    == old(self)@.proposal_metadata[id],
                None => !old(self)@.proposal_metadata.contains_key(id),
            },
    {
        self.proposal_metadata.take(id)
    }

    /// Stores the proposal `id`.
    pub(crate) fn put_proposal(&mut self, id: PipId, pip: Pip<EncodedCall>)
        ensures
            final(self)@ == (State {
                proposals: old(self)@.proposals.insert(id, pip@),
                ..old(self)@
            }),
    {
        self.proposals.insert(id, pip);
    }

    /// Removes the proposal `id`, and hands it out.
    pub(crate) fn take_proposal(&mut self, id: PipId) -> (pip: Option<Pip<EncodedCall>>)
        ensures
            final(self)@ == (State { proposals: old(self)@.proposals.remove(id), ..old(self)@ }),
            match pip {
                Some(p) => old(self)@.proposals.contains_key(id) && p@ == old(self)@.proposals[id],
                None => !old(self)@.proposals.contains_key(id),
            },
    {
        self.proposals.take(id)
    }

    /// Stores the tally of the proposal `id`.
    pub(crate) fn put_result(&mut self, id: PipId, result: VotingResult<Balance>)
        ensures
            final(self)@ == (State {
                proposal_result: old(self)@.proposal_result.insert(id, result),
                ..old(self)@
            }),
    {
        self.proposal_result.insert(id, result);
    }

    /// Stores the vote of `who` on the proposal `id`.
    pub(crate) fn put_vote(&mut self, id: PipId, who: AccountId, vote: Vote<Balance>)
        ensures
            final(self)@ == (State {
                proposal_votes: old(self)@.proposal_votes.insert(
                    id,
                    put(seq_at(old(self)@.proposal_votes, id), who, vote),
                ),
                ..old(self)@
            }),
    {
        let mut votes: Ledger<Vote<Balance>> = self.proposal_votes.take_list(id);
        file(&mut votes, who, vote);
        self.proposal_votes.insert(id, votes);
        assert(self@.proposal_votes =~= old(self)@.proposal_votes.insert(
            id,
            put(seq_at(old(self)@.proposal_votes, id), who, vote),
        ));
    }

    /// Stores the deposit of `who` on the proposal `id`.
    pub(crate) fn put_deposit(&mut self, id: PipId, who: AccountId, deposit: Deposit)
        ensures
            final(self)@ == (State {
                deposits: old(self)@.deposits.insert(
                    id,
                    put(seq_at(old(self)@.deposits, id), who, deposit),
                ),
                ..old(self)@
            }),
    {
        let mut deposits: Ledger<Deposit> = self.deposits.take_list(id);
        file(&mut deposits, who, deposit);
        self.deposits.insert(id, deposits);
        assert(self@.deposits =~= old(self)@.deposits.insert(
            id,
            put(seq_at(old(self)@.deposits, id), who, deposit),
        ));
    }

    /// Removes all deposits on the proposal `id`, and hands them out.
    pub(crate) fn take_deposits(&mut self, id: PipId) -> (deposits: Ledger<Deposit>)
        ensures
            final(self)@ == (State { deposits: old(self)@.deposits.remove(id), ..old(self)@ }),
            deposits@ == seq_at(old(self)@.deposits, id),
    {
        self.deposits.take_list(id)
    }

    /// Stores the referendum `id`.
    pub(crate) fn put_referendum(&mut self, id: PipId, referendum: Referendum)
        ensures
            final(self)@ == (State {
                referendums: old(self)@.referendums.insert(id, referendum),
                ..old(self)@
            }),
    {
        self.referendums.insert(id, referendum);
    }

    /// Removes all that is known of the proposal `id`, but for its deposits.
    pub(crate) fn forget(&mut self, id: PipId)
        ensures
            final(self)@ == (State {
                proposal_result: old(self)@.proposal_result.remove(id),
                proposal_votes: old(self)@.proposal_votes.remove(id),
                proposal_metadata: old(self)@.proposal_metadata.remove(id),
                proposals: old(self)@.proposals.remove(id),
                referendums: old(self)@.referendums.remove(id),
                ..old(self)@
            }),
    {
        self.proposal_result.take(id);
        self.proposal_votes.take(id);
        self.proposal_metadata.take(id);
        self.proposals.take(id);
        self.referendums.take(id);
    }

    /// Adds `id` to the proposals whose voting ends at the block `block`.
    pub(crate) fn append_maturing(&mut self, block: BlockNumber, id: PipId)
        ensures
            final(self)@ == (State {
                proposals_maturing_at: old(self)@.proposals_maturing_at.insert(
                    block,
                    seq_at(old(self)@.proposals_maturing_at, block).push(id),
                ),
                ..old(self)@
            }),
    {
        self.proposals_maturing_at.append(block, id);
    }

    /// Removes the list of the proposals whose voting ends at the block `block`, and hands it
    /// out.
    pub(crate) fn take_maturing(&mut self, block: BlockNumber) -> (ids: Vec<PipId>)
        ensures
            final(self)@ == old(self)@.mature(block),
            ids@ == seq_at(old(self)@.proposals_maturing_at, block),
    {
        self.proposals_maturing_at.take_list(block)
    }

    /// Adds `id` to the referendums that are to be executed at the block `block`.
    pub(crate) fn append_scheduled(&mut self, block: BlockNumber, id: PipId)
        ensures
            final(self)@ == (State {
                scheduled_referendums_at: old(self)@.scheduled_referendums_at.insert(
                    block,
                    seq_at(old(self)@.scheduled_referendums_at, block).push(id),
                ),
                ..old(self)@
            }),
    {
        self.scheduled_referendums_at.append(block, id);
    }

    /// Removes the list of the referendums that are to be executed at the block `block`, and hands
    /// it out.
    pub(crate) fn take_scheduled(&mut self, block: BlockNumber) -> (ids: Vec<PipId>)
        ensures
            final(self)@ == old(self)@.clear_schedule(block),
            ids@ == seq_at(old(self)@.scheduled_referendums_at, block),
    {
        self.scheduled_referendums_at.take_list(block)
    }

    /// Stores the list of the referendums that are to be executed at the block `block`.
    pub(crate) fn put_scheduled(&mut self, block: BlockNumber, ids: Vec<PipId>)
        ensures
            final(self)@ == (State {
                scheduled_referendums_at: old(self)@.scheduled_referendums_at.insert(block, ids@),
                ..old(self)@
            }),
    {
        self.scheduled_referendums_at.insert(block, ids);
    }

    /// Leaves work to the rest of the runtime.
    pub(crate) fn leave(&mut self, effect: Effect)
        ensures
            final(self)@ == old(self)@.effect(effect@),
    {
        self.outbox.push(effect);
        assert(self@.outbox =~= old(self)@.effect(effect@).outbox);
    }

    /// Reports an event.
    pub(crate) fn deposit_event(&mut self, event: Event)
        ensures
            final(self)@ == old(self)@.event(event@),
    {
        self.leave(Effect::Deposit(event));
    }

    /// Hands out the work that was left to the rest of the runtime, in the order in which it is
    /// to be done.
    pub fn take_effects(&mut self) -> (effects: Vec<Effect>)
        requires
            old(self).wf(),
        ensures
            final(self).wf(),
            effects_view(effects@) == old(self)@.outbox,
            final(self)@ == (State { outbox: Seq::empty(), ..old(self)@ }),
    {
        let mut effects: Vec<Effect> = Vec::new();
        std::mem::swap(&mut effects, &mut self.outbox);
        assert(self@.outbox =~= Seq::empty());
        proof {
            crate::soundness::records_alone_matter(old(self)@, self@);
        }
        effects
    }
}

} // verus!
