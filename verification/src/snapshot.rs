//! The whole state of the module as plain values, for it to be kept elsewhere and taken up again.
use crate::ledger::{distinct, is_distinct, Ledger};
use crate::model::{matched, State};
use crate::store::{effects_view, Module};
use crate::table::{map_of, seq_at};
use crate::tally::{is_tallied, tallied};
use crate::types::{
    AccountId, Balance, BlockNumber, Config, Deposit, Effect, EncodedCall, Pip, PipId,
    PipsMetadata, ProposalState, Referendum, Vote, VotingResult,
};
use vstd::prelude::*;

verus! {

/// The state of the module, as plain values. A map is a list of its entries; of several entries
/// with one key, the last counts.
#[derive(Clone, Debug, PartialEq, Eq)]
pub struct Snapshot {
    /// The block that is being built.
    pub block_number: BlockNumber,
    /// The parameters.
    pub config: Config,
    /// The id that the next proposal gets.
    pub pip_id_sequence: u32,
    /// The metadata of the proposals.
    pub proposal_metadata: Vec<(PipId, PipsMetadata)>,
    /// The proposals whose voting ends at a block.
    pub proposals_maturing_at: Vec<(BlockNumber, Vec<PipId>)>,
    /// Those who have locked a deposit on a proposal.
    pub deposits: Vec<(PipId, Vec<(AccountId, Deposit)>)>,
    /// The proposals.
    pub proposals: Vec<(PipId, Pip<EncodedCall>)>,
    /// The tallies of the proposals.
    pub proposal_result: Vec<(PipId, VotingResult<Balance>)>,
    /// The votes on the proposals.
    pub proposal_votes: Vec<(PipId, Vec<(AccountId, Vote<Balance>)>)>,
    /// The referendums.
    pub referendums: Vec<(PipId, Referendum)>,
    /// The referendums that are to be executed at a block.
    pub scheduled_referendums_at: Vec<(BlockNumber, Vec<PipId>)>,
    /// The work left to the rest of the runtime.
    pub effects: Vec<Effect>,
}

impl View for Snapshot {
    type V = State;

    open spec fn view(&self) -> State {
        State {
            block_number: self.block_number,
            config: self.config,
            pip_id_sequence: self.pip_id_sequence,
            proposal_metadata: map_of(self.proposal_metadata@),
            proposals_maturing_at: map_of(self.proposals_maturing_at@),
            deposits: map_of(self.deposits@),
            proposals: map_of(self.proposals@),
            proposal_result: map_of(self.proposal_result@),
            proposal_votes: map_of(self.proposal_votes@),
            referendums: map_of(self.referendums@),
            scheduled_referendums_at: map_of(self.scheduled_referendums_at@),
            outbox: effects_view(self.effects@),
        }
    }
}

/// Whether deposits and votes belong to each other.
fn is_matched(deposits: &Ledger<Deposit>, votes: &Ledger<Vote<Balance>>) -> (answer: bool)
    ensures
        answer == matched(deposits@, votes@),
{
    if deposits.len() != votes.len() {
        return false;
    }
    let mut i: usize = 0;
    while i < votes.len()
        invariant
            i <= votes.len(),
            deposits.len() == votes.len(),
            forall|j: int|
                0 <= j < i ==> {
                    &&& (#[trigger] deposits@[j]).0 == votes@[j].0
                    &&& deposits@[j].1.owner == deposits@[j].0
                    &&& votes@[j].1 == Vote::Yes(deposits@[j].1.amount) || votes@[j].1 == Vote::No(
                        deposits@[j].1.amount,
                    )
                },
        decreases votes.len() - i,
    {
        let deposit: (AccountId, Deposit) = deposits[i];
        let vote: (AccountId, Vote<Balance>) = votes[i];
        let backed: bool = match vote.1 {
            Vote::Yes(stake) => stake == deposit.1.amount,
            Vote::No(stake) => stake == deposit.1.amount,
            Vote::NotCast => false,
        };
        if deposit.0 != vote.0 || deposit.1.owner != deposit.0 || !backed {
            assert(deposits@[i as int] == deposit);
            return false;
        }
        i = i + 1;
    }
    true
}

/// Whether `ids` has the id `id` in it.
fn has_id(ids: &Vec<PipId>, id: PipId) -> (answer: bool)
    ensures
        answer == ids@.contains(id),
{
    let mut i: usize = 0;
    while i < ids.len()
        invariant
            i <= ids.len(),
            forall|j: int| 0 <= j < i ==> ids@[j] != id,
        decreases ids.len() - i,
    {
        if ids[i] == id {
            return true;
        }
        i = i + 1;
    }
    false
}

impl Module {
    /// The state that a snapshot holds; none where it is not one that the module can be in.
    pub fn from_snapshot(snapshot: Snapshot) -> (module: Option<Self>)
        ensures
            match module {
                Some(m) => m.wf() && m@ == snapshot@,
                None => !snapshot@.inv(),
            },
    {
        let module: Module = Module::assemble(snapshot);
        if module.is_sound() {
            Some(module)
        } else {
            None
        }
    }

    /// Whether the votes on the proposal `id` are those that its tally counts, one per account.
    fn votes_are_sound(&self, id: PipId) -> (answer: bool)
        ensures
            answer == {
                &&& self@.proposal_result.contains_key(id) == self@.proposal_votes.contains_key(id)
                &&& self@.proposal_votes.contains_key(id) ==> {
                    &&& distinct(self@.proposal_votes[id])
                    &&& tallied(self@.proposal_result[id], self@.proposal_votes[id])
                }
            },
    {
        match self.votes_on(id) {
            Some(votes) => self.has_proposal_result(id) && is_distinct(votes) && is_tallied(
                self.proposal_result(id),
                votes,
            ),
            None => !self.has_proposal_result(id),
        }
    }

    /// Whether the votes on the pending proposal `id` are backed by deposits, as they have to be.
    fn deposits_are_sound(&self, id: PipId, meta: &PipsMetadata) -> (answer: bool)
        requires
            self@.proposal_metadata.contains_key(id),
            meta@ == self@.proposal_metadata[id],
            self@.deposits.contains_key(id),
        ensures
            answer == {
                &&& self@.proposal_votes.contains_key(id)
                &&& matched(self@.deposits[id], self@.proposal_votes[id])
                &&& self@.proposal_votes[id].len() >= 1
                &&& self@.proposal_votes[id][0].0 == self@.proposal_metadata[id].proposer
                &&& self@.proposal_votes[id][0].1 is Yes
                &&& self@.proposal_metadata[id].cool_off_until > self@.block_number
                    ==> self@.proposal_votes[id].len() == 1
            },
    {
        match (self.deposits_on(id), self.votes_on(id)) {
            (Some(deposits), Some(votes)) => {
                if votes.len() == 0 || !is_matched(deposits, votes) {
                    return false;
                }
                let first: (AccountId, Vote<Balance>) = votes[0];
                let aye: bool = match first.1 {
                    Vote::Yes(_) => true,
                    _ => false,
                };
                first.0 == meta.proposer && aye && (meta.cool_off_until <= self.block_number()
                    || votes.len() == 1)
            },
            _ => false,
        }
    }

    /// Whether what has to hold of the id `id` does.
    fn id_is_sound(&self, id: PipId) -> (answer: bool)
        ensures
            answer == self@.sound(id),
    {
        let numbered: bool = match self.referendums(id) {
            Some(referendum) => referendum.id == id,
            None => true,
        };
        if !numbered || !self.votes_are_sound(id) {
            return false;
        }
        let has_referendum: bool = self.referendums(id).is_some();
        match (self.proposals(id), self.proposal_metadata(id)) {
            (Some(pip), Some(meta)) => {
                let pending: bool = pip.state == ProposalState::Pending;
                let at_referendum: bool = pip.state == ProposalState::Referendum;
                if id >= self.pip_id_sequence() || pip.id != id || meta.id != id {
                    return false;
                }
                if has_referendum != at_referendum || self.has_deposits(id) != pending {
                    return false;
                }
                !pending || self.deposits_are_sound(id, meta)
            },
            (None, None) => !has_referendum && !self.has_deposits(id) && !self.has_proposal_result(
                id,
            ),
            _ => false,
        }
    }

    /// Whether only such proposals are on the list for a block whose voting ends there.
    fn lists_are_sound(&self) -> (answer: bool)
        ensures
            answer == forall|block: BlockNumber, id: PipId| #[trigger]
                seq_at(self@.proposals_maturing_at, block).contains(id) ==> self@.ends_at(
                    id,
                    block,
                ),
    {
        let blocks: Vec<BlockNumber> = self.listed_blocks();
        let ghost lists = self@.proposals_maturing_at;
        let mut i: usize = 0;
        while i < blocks.len()
            invariant
                i <= blocks.len(),
                lists == self@.proposals_maturing_at,
                forall|b: int, id: PipId|
                    0 <= b < i && #[trigger] seq_at(lists, blocks@[b]).contains(id)
                        ==> self@.ends_at(id, blocks@[b]),
            decreases blocks.len() - i,
        {
            let block: BlockNumber = blocks[i];
            let ids: Vec<PipId> = self.proposals_maturing_at(block);
            let mut j: usize = 0;
            while j < ids.len()
                invariant
                    j <= ids.len(),
                    ids@ == seq_at(self@.proposals_maturing_at, block),
                    forall|k: int| 0 <= k < j ==> self@.ends_at(#[trigger] ids@[k], block),
                decreases ids.len() - j,
            {
                let id: PipId = ids[j];
                let right: bool = match self.proposal_metadata(id) {
                    Some(meta) => meta.end == block,
                    None => true,
                };
                if id >= self.pip_id_sequence() || !right {
                    assert(seq_at(self@.proposals_maturing_at, block).contains(id));
                    return false;
                }
                j = j + 1;
            }
            i = i + 1;
        }
        assert forall|block: BlockNumber, id: PipId| #[trigger]
            seq_at(self@.proposals_maturing_at, block).contains(id) implies self@.ends_at(
            id,
            block,
        ) by {
            assert(blocks@.contains(block));
            let b = choose|b: int| 0 <= b < blocks@.len() && blocks@[b] == block;
            assert(seq_at(lists, blocks@[b]).contains(id));
        }
        true
    }

    /// Whether the proposal `id`, if it is pending, is on the list for the end of its voting.
    fn is_on_its_list(&self, id: PipId) -> (answer: bool)
        requires
            self@.sound(id),
        ensures
            answer == (self@.pending(id) ==> seq_at(
                self@.proposals_maturing_at,
                self@.proposal_metadata[id].end,
            ).contains(id)),
    {
        if self.is_proposal_pending(id).is_err() {
            return true;
        }
        match self.proposal_metadata(id) {
            Some(meta) => has_id(&self.proposals_maturing_at(meta.end), id),
            None => true,
        }
    }

    /// Whether the state is one that the module can be in.
    fn is_sound(&self) -> (answer: bool)
        ensures
            answer == self@.inv(),
    {
        if !self.lists_are_sound() {
            proof {
                let (block, id) = choose|block: BlockNumber, id: PipId| #[trigger]
                    seq_at(self@.proposals_maturing_at, block).contains(id) && !self@.ends_at(
                        id,
                        block,
                    );
                assert(!self@.listed(id));
            }
            return false;
        }
        let ids: Vec<PipId> = self.recorded_ids();
        let mut i: usize = 0;
        while i < ids.len()
            invariant
                i <= ids.len(),
                forall|j: int|
                    0 <= j < i ==> {
                        let id = #[trigger] ids@[j];
                        &&& self@.sound(id)
                        &&& self@.pending(id) ==> seq_at(
                            self@.proposals_maturing_at,
                            self@.proposal_metadata[id].end,
                        ).contains(id)
                    },
            decreases ids.len() - i,
        {
            let id: PipId = ids[i];
            if !self.id_is_sound(id) {
                return false;
            }
            if !self.is_on_its_list(id) {
                assert(!self@.listed(id));
                return false;
            }
            i = i + 1;
        }
        proof {
            assert forall|id: PipId| #[trigger] self@.sound(id) by {
                if ids@.contains(id) {
                    let j = choose|j: int| 0 <= j < ids@.len() && ids@[j] == id;
                    assert(self@.sound(ids@[j]));
                }
            }
            assert forall|id: PipId| #[trigger] self@.listed(id) by {
                if self@.pending(id) {
                    assert(ids@.contains(id));
                    let j = choose|j: int| 0 <= j < ids@.len() && ids@[j] == id;
                    assert(self@.sound(ids@[j]));
                }
            }
        }
        true
    }
}

} // verus!
