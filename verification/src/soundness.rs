//! Every call keeps the invariant of the state.
use crate::ledger::{distinct, filed, lemma_lookup_entry, lemma_lookup_none, lookup};
use crate::model::{ballot, matched, Deposits, State};
use crate::table::{lemma_last_contains, lemma_push_contains, seq_at};
use crate::tally::{lemma_counted_tallied, tallied, Ballots};
use crate::types::{
    AccountId, Balance, Beneficiary, BlockNumber, Config, DepositInfo, Origin, PipId,
    ProposalState, ReferendumType, Vote,
};
use vstd::prelude::*;

verus! {

/// Whether `t` has the same records of proposals and referendums as `s`, at the same block.
pub open spec fn same_records(s: State, t: State) -> bool {
    &&& t.block_number == s.block_number
    &&& t.pip_id_sequence == s.pip_id_sequence
    &&& t.proposal_metadata == s.proposal_metadata
    &&& t.proposals_maturing_at == s.proposals_maturing_at
    &&& t.deposits == s.deposits
    &&& t.proposals == s.proposals
    &&& t.proposal_result == s.proposal_result
    &&& t.proposal_votes == s.proposal_votes
    &&& t.referendums == s.referendums
}

/// The invariant is about records only: parameters, schedule and outbox do not matter to it.
pub proof fn records_alone_matter(s: State, t: State)
    requires
        s.inv(),
        same_records(s, t),
    ensures
        t.inv(),
{
    assert forall|id: PipId| #[trigger] t.sound(id) by {
        assert(s.sound(id));
    }
    assert forall|id: PipId| #[trigger] t.listed(id) by {
        assert(s.listed(id));
    }
}

/// Deposits that belong to votes are those of different accounts, where the votes are.
pub proof fn lemma_matched_distinct(deposits: Deposits, votes: Ballots)
    requires
        matched(deposits, votes),
        distinct(votes),
    ensures
        distinct(deposits),
{
    assert forall|i: int, j: int| 0 <= i < j < deposits.len() implies (#[trigger] deposits[i]).0
        != (#[trigger] deposits[j]).0 by {
        assert(deposits[i].0 == votes[i].0);
        assert(deposits[j].0 == votes[j].0);
    }
}

/// The invariant holds before the first block.
pub proof fn genesis_is_sound(config: Config)
    ensures
        State::genesis(config).inv(),
{
}

/// A new proposal keeps the invariant.
pub proof fn propose_keeps_inv(
    s: State,
    who: AccountId,
    call: Seq<u8>,
    deposit: Balance,
    url: Option<Seq<u8>>,
    description: Option<Seq<u8>>,
    beneficiaries: Seq<Beneficiary<Balance>>,
)
    requires
        s.inv(),
        s.proposal_fits(),
    ensures
        s.propose(who, call, deposit, url, description, beneficiaries).inv(),
{
    let t = s.propose(who, call, deposit, url, description, beneficiaries);
    let id = s.pip_id_sequence;
    let end = t.proposal_metadata[id].end;
    assert(t.proposals_maturing_at[end].last() == id);
    assert forall|i: PipId| #[trigger] t.sound(i) by {
        assert(s.sound(i));
        if i == id {
            let votes = t.proposal_votes[id];
            reveal_with_fuel(crate::tally::ayes, 2);
            reveal_with_fuel(crate::tally::nays, 2);
            reveal_with_fuel(crate::tally::ayes_stake, 2);
            reveal_with_fuel(crate::tally::nays_stake, 2);
            assert(votes.drop_last() =~= Seq::empty());
            assert(tallied(t.proposal_result[id], votes));
        }
    }
    assert forall|i: PipId| #[trigger] t.listed(i) by {
        assert(s.sound(i));
        assert(s.listed(i));
        lemma_push_contains(seq_at(s.proposals_maturing_at, end), id, i);
        assert forall|b: BlockNumber| #[trigger]
            seq_at(t.proposals_maturing_at, b).contains(i) implies t.ends_at(i, b) by {
            assert(b != end ==> seq_at(s.proposals_maturing_at, b).contains(i));
        }
    }
}

/// Amending a proposal keeps the invariant.
pub proof fn amend_keeps_inv(
    s: State,
    who: AccountId,
    id: PipId,
    url: Option<Seq<u8>>,
    description: Option<Seq<u8>>,
)
    requires
        s.inv(),
        s.proposal_metadata.contains_key(id),
    ensures
        s.amend(who, id, url, description).inv(),
{
    let t = s.amend(who, id, url, description);
    assert forall|i: PipId| #[trigger] t.sound(i) by {
        assert(s.sound(i));
    }
    assert forall|i: PipId| #[trigger] t.listed(i) by {
        assert(s.listed(i));
    }
}

/// A pending proposal that is refunded, moved to a closed state and pruned, in any order of the
/// first two, keeps the invariant.
proof fn lemma_close(s: State, t: State, id: PipId, state: ProposalState)
    requires
        forall|i: PipId| #[trigger] s.sound(i),
        s.pending(id),
        state != ProposalState::Pending,
        state != ProposalState::Referendum,
        t == s.refund(id).update_proposal_state(id, state).prune(id) || t
            == s.update_proposal_state(id, state).refund(id).prune(id),
    ensures
        forall|i: PipId| #[trigger] t.sound(i),
        forall|i: PipId| #[trigger] t.pending(i) <==> s.pending(i) && i != id,
        t.proposals_maturing_at == s.proposals_maturing_at,
        forall|i: PipId|
            i != id ==> #[trigger] t.proposal_metadata.contains_key(i)
                == s.proposal_metadata.contains_key(i),
        forall|i: PipId| i != id ==> #[trigger] t.proposal_metadata[i] == s.proposal_metadata[i],
        t.block_number == s.block_number,
        t.config == s.config,
{
    assert forall|i: PipId| #[trigger] t.sound(i) by {
        assert(s.sound(i));
    }
    assert forall|i: PipId| #[trigger] t.pending(i) <==> s.pending(i) && i != id by {
        assert(s.sound(i));
    }
}

/// Cancelling a proposal keeps the invariant.
pub proof fn cancel_keeps_inv(s: State, id: PipId)
    requires
        s.inv(),
        s.pending(id),
    ensures
        s.cancel(id).inv(),
{
    let t = s.cancel(id);
    lemma_close(s, t, id, ProposalState::Cancelled);
    assert forall|i: PipId| #[trigger] t.listed(i) by {
        assert(s.listed(i));
        assert(t.pending(i) <==> s.pending(i) && i != id);
    }
}

/// Killing a proposal keeps the invariant.
pub proof fn kill_keeps_inv(s: State, id: PipId)
    requires
        s.inv(),
        s.pending(id),
    ensures
        s.kill(id).inv(),
{
    let t = s.kill(id);
    lemma_close(s, t, id, ProposalState::Killed);
    assert forall|i: PipId| #[trigger] t.listed(i) by {
        assert(s.listed(i));
        assert(t.pending(i) <==> s.pending(i) && i != id);
    }
}

/// During the cool-off period of a proposal, its owner's deposit is the only one on it, and the
/// only stake in its tally.
pub proof fn cool_off_has_one_voter(s: State, id: PipId)
    requires
        s.inv(),
        s.pending(id),
        s.proposal_metadata[id].cool_off_until > s.block_number,
    ensures
        ({
            let who = s.proposal_metadata[id].proposer;
            let amount = s.deposit_of(id, who);
            &&& s.deposits[id] =~= seq![(who, DepositInfo { owner: who, amount })]
            &&& s.proposal_votes[id] =~= seq![(who, Vote::Yes(amount))]
            &&& s.proposal_result[id].ayes_count == 1
            &&& s.proposal_result[id].ayes_stake == amount
            &&& s.proposal_result[id].nays_count == 0
            &&& s.proposal_result[id].nays_stake == 0
        }),
{
    assert(s.sound(id));
    let votes = s.proposal_votes[id];
    let deposits = s.deposits[id];
    reveal_with_fuel(crate::tally::ayes, 2);
    reveal_with_fuel(crate::tally::nays, 2);
    reveal_with_fuel(crate::tally::ayes_stake, 2);
    reveal_with_fuel(crate::tally::nays_stake, 2);
    assert(votes.drop_last() =~= Seq::empty());
    assert(deposits[0].0 == votes[0].0);
    reveal_with_fuel(lookup, 2);
}

/// A change of the owner's deposit during the cool-off period keeps the invariant.
proof fn lemma_redeposit(s: State, who: AccountId, id: PipId, amount: Balance)
    requires
        s.inv(),
        s.pending(id),
        s.proposal_metadata[id].cool_off_until > s.block_number,
        s.proposal_metadata[id].proposer == who,
    ensures
        s.redeposit(who, id, amount).inv(),
{
    let t = s.redeposit(who, id, amount);
    cool_off_has_one_voter(s, id);
    assert(s.sound(id));
    assert(s.deposits[id][0].0 == who);
    assert(s.proposal_votes[id][0].0 == who);
    assert(t.deposits[id] =~= seq![(who, DepositInfo { owner: who, amount })]);
    assert(t.proposal_votes[id] =~= seq![(who, Vote::Yes(amount))]);
    assert forall|i: PipId| #[trigger] t.sound(i) by {
        assert(s.sound(i));
        if i == id {
            let votes = t.proposal_votes[id];
            reveal_with_fuel(crate::tally::ayes, 2);
            reveal_with_fuel(crate::tally::nays, 2);
            reveal_with_fuel(crate::tally::ayes_stake, 2);
            reveal_with_fuel(crate::tally::nays_stake, 2);
            assert(votes.drop_last() =~= Seq::empty());
        }
    }
    assert forall|i: PipId| #[trigger] t.listed(i) by {
        assert(s.listed(i));
    }
}

/// Adding to a deposit keeps the invariant.
pub proof fn bond_keeps_inv(s: State, origin: Origin, id: PipId, additional: Balance)
    requires
        s.inv(),
        s.owner_check(origin, id) is Ok,
    ensures
        s.bond(origin.signer->0, id, additional).inv(),
{
    let who = origin.signer->0;
    let amount = (s.deposit_of(id, who) + s.bond_amount(who, id, additional)) as Balance;
    lemma_redeposit(s, who, id, amount);
    records_alone_matter(s.redeposit(who, id, amount), s.bond(who, id, additional));
}

/// Releasing a part of a deposit keeps the invariant.
pub proof fn unbond_keeps_inv(s: State, origin: Origin, id: PipId, amount: Balance)
    requires
        s.inv(),
        s.unbond_result(origin, id, amount) is Ok,
    ensures
        s.unbond(origin.signer->0, id, amount).inv(),
{
    let who = origin.signer->0;
    let rest = (s.deposit_of(id, who) - amount) as Balance;
    lemma_redeposit(s, who, id, rest);
    records_alone_matter(s.redeposit(who, id, rest), s.unbond(who, id, amount));
}

/// Voting keeps the invariant.
pub proof fn vote_keeps_inv(
    s: State,
    origin: Origin,
    id: PipId,
    aye: bool,
    deposit: Balance,
    reserved: bool,
)
    requires
        s.inv(),
    ensures
        s.vote(origin, id, aye, deposit, reserved).inv(),
{
    let t = s.vote(origin, id, aye, deposit, reserved);
    let who = origin.signer->0;
    if s.vote_result(origin, id, aye, deposit, reserved) is Ok {
        assert(s.sound(id));
        let votes = s.proposal_votes[id];
        let deposits = s.deposits[id];
        lemma_lookup_none(votes, who);
        if filed(votes, who) {
            let k = choose|k: int| 0 <= k < votes.len() && (#[trigger] votes[k]).0 == who;
            lemma_lookup_entry(votes, k);
            assert(deposits[k].0 == votes[k].0);
            assert(false);
        }
        assert(!filed(deposits, who)) by {
            if filed(deposits, who) {
                let k = choose|k: int| 0 <= k < deposits.len() && (#[trigger] deposits[k]).0 == who;
                assert(votes[k].0 == who);
            }
        }
        let vote = ballot(aye, deposit);
        lemma_counted_tallied(s.proposal_result[id], votes, who, vote);
        assert(t.proposal_votes[id] == votes.push((who, vote)));
        assert(t.deposits[id] == deposits.push((who, DepositInfo { owner: who, amount: deposit })));
        assert forall|i: PipId| #[trigger] t.sound(i) by {
            assert(s.sound(i));
            if i == id {
                let after = t.proposal_votes[id];
                assert forall|a: int, b: int| 0 <= a < b < after.len() implies (#[trigger]
                after[a]).0 != (#[trigger] after[b]).0 by {
                    assert(votes[a] == after[a]);
                    if b < votes.len() {
                        assert(votes[b] == after[b]);
                    }
                }
                assert forall|k: int| 0 <= k < after.len() implies {
                    &&& (#[trigger] t.deposits[id][k]).0 == after[k].0
                    &&& t.deposits[id][k].1.owner == t.deposits[id][k].0
                    &&& after[k].1 == Vote::Yes(t.deposits[id][k].1.amount) || after[k].1
                        == Vote::No(t.deposits[id][k].1.amount)
                } by {
                    if k < votes.len() {
                        assert(deposits[k].0 == votes[k].0);
                    }
                }
                assert(matched(t.deposits[id], after));
            }
        }
        assert forall|i: PipId| #[trigger] t.listed(i) by {
            assert(s.listed(i));
        }
    } else {
        records_alone_matter(s, t);
    }
}

/// What becomes of the records when a proposal becomes a referendum and its deposits are
/// refunded, in any order.
proof fn lemma_promote(s: State, t: State, id: PipId, kind: ReferendumType, members: u32)
    requires
        forall|i: PipId| #[trigger] s.sound(i),
        s.pending(id),
        t == s.refund(id).create_referendum(id, kind, members) || t == s.create_referendum(
            id,
            kind,
            members,
        ).refund(id),
    ensures
        forall|i: PipId| #[trigger] t.sound(i),
        forall|i: PipId| #[trigger] t.pending(i) <==> s.pending(i) && i != id,
        t.proposals_maturing_at == s.proposals_maturing_at,
        t.proposal_metadata == s.proposal_metadata,
        t.block_number == s.block_number,
        t.config == s.config,
{
    assert forall|i: PipId| #[trigger] t.sound(i) by {
        assert(s.sound(i));
    }
    assert forall|i: PipId| #[trigger] t.pending(i) <==> s.pending(i) && i != id by {
        assert(s.sound(i));
    }
}

/// Fast-tracking a proposal keeps the invariant.
pub proof fn fast_track_keeps_inv(s: State, id: PipId, members: u32)
    requires
        s.inv(),
        s.pending(id),
    ensures
        s.fast_track(id, members).inv(),
{
    let t = s.fast_track(id, members);
    lemma_promote(s, t, id, ReferendumType::FastTracked, members);
    assert forall|i: PipId| #[trigger] t.listed(i) by {
        assert(s.listed(i));
        assert(t.pending(i) <==> s.pending(i) && i != id);
    }
}

/// An emergency referendum keeps the invariant.
pub proof fn emergency_keeps_inv(
    s: State,
    who: AccountId,
    call: Seq<u8>,
    url: Option<Seq<u8>>,
    description: Option<Seq<u8>>,
    beneficiaries: Seq<Beneficiary<Balance>>,
    members: u32,
)
    requires
        s.inv(),
        s.pip_id_sequence < u32::MAX,
    ensures
        s.emergency(who, call, url, description, beneficiaries, members).inv(),
{
    let t = s.emergency(who, call, url, description, beneficiaries, members);
    assert forall|i: PipId| #[trigger] t.sound(i) by {
        assert(s.sound(i));
    }
    assert forall|i: PipId| #[trigger] t.listed(i) by {
        assert(s.sound(i));
        assert(s.listed(i));
    }
}

/// Scheduling a referendum keeps the invariant.
pub proof fn schedule_keeps_inv(s: State, id: PipId)
    requires
        s.inv(),
        s.referendums.contains_key(id),
    ensures
        s.schedule(id).inv(),
{
    let t = s.schedule(id);
    assert forall|i: PipId| #[trigger] t.sound(i) by {
        assert(s.sound(i));
    }
    assert forall|i: PipId| #[trigger] t.listed(i) by {
        assert(s.listed(i));
    }
}

/// Rescheduling a referendum keeps the invariant.
pub proof fn reschedule_keeps_inv(s: State, id: PipId, until: BlockNumber)
    requires
        s.inv(),
        s.referendums.contains_key(id),
    ensures
        s.reschedule(id, until).inv(),
{
    let t = s.reschedule(id, until);
    assert forall|i: PipId| #[trigger] t.sound(i) by {
        assert(s.sound(i));
    }
    assert forall|i: PipId| #[trigger] t.listed(i) by {
        assert(s.listed(i));
    }
}

/// Rejecting a referendum keeps the invariant.
pub proof fn reject_keeps_inv(s: State, id: PipId)
    requires
        s.inv(),
        s.referendums.contains_key(id),
    ensures
        s.reject(id).inv(),
{
    let t = s.reject(id);
    assert(s.sound(id));
    assert forall|i: PipId| #[trigger] t.sound(i) by {
        assert(s.sound(i));
    }
    assert forall|i: PipId| #[trigger] t.listed(i) by {
        assert(s.listed(i));
    }
}

/// Completing the execution of a referendum keeps the invariant.
pub proof fn complete_keeps_inv(s: State, id: PipId, success: bool)
    requires
        s.inv(),
        s.in_state(id, ProposalState::Referendum),
    ensures
        s.complete(id, success).inv(),
{
    let t = s.complete(id, success);
    assert(s.sound(id));
    assert forall|i: PipId| #[trigger] t.sound(i) by {
        assert(s.sound(i));
    }
    assert forall|i: PipId| #[trigger] t.listed(i) by {
        assert(s.listed(i));
    }
}

/// A new block keeps the invariant: block numbers do not decrease.
pub proof fn begin_block_keeps_inv(s: State, block: BlockNumber)
    requires
        s.inv(),
        s.block_number <= block,
    ensures
        s.begin_block(block).inv(),
{
    let t = s.begin_block(block);
    assert forall|i: PipId| #[trigger] t.sound(i) by {
        assert(s.sound(i));
    }
    assert forall|i: PipId| #[trigger] t.listed(i) by {
        assert(s.listed(i));
    }
}

/// What ending the voting on one proposal leaves as it was.
pub proof fn lemma_settle(s: State, id: PipId, members: u32)
    requires
        forall|i: PipId| #[trigger] s.sound(i),
    ensures
        ({
            let t = s.settle(id, members);
            &&& forall|i: PipId| #[trigger] t.sound(i)
            &&& forall|i: PipId| #[trigger] t.pending(i) <==> s.pending(i) && i != id
            &&& forall|i: PipId|
                #[trigger] t.pending(i) ==> t.proposal_metadata[i] == s.proposal_metadata[i]
                    && t.result_of(i) == s.result_of(i)
            &&& t.proposal_metadata.submap_of(s.proposal_metadata)
            &&& t.proposals_maturing_at == s.proposals_maturing_at
            &&& t.pip_id_sequence == s.pip_id_sequence
            &&& t.block_number == s.block_number
            &&& t.config == s.config
        }),
{
    let t = s.settle(id, members);
    if s.pending(id) {
        if s.accepted(id) {
            lemma_promote(s, t, id, ReferendumType::Community, members);
        } else {
            lemma_close(s, t, id, ProposalState::Rejected);
        }
    }
}

/// What ending the voting on several proposals leaves as it was.
pub proof fn lemma_settle_all(s: State, ids: Seq<PipId>, members: u32)
    requires
        forall|i: PipId| #[trigger] s.sound(i),
    ensures
        ({
            let t = s.settle_all(ids, members);
            &&& forall|i: PipId| #[trigger] t.sound(i)
            &&& forall|i: PipId| #[trigger] t.pending(i) <==> s.pending(i) && !ids.contains(i)
            &&& forall|i: PipId|
                #[trigger] t.pending(i) ==> t.proposal_metadata[i] == s.proposal_metadata[i]
                    && t.result_of(i) == s.result_of(i)
            &&& t.proposal_metadata.submap_of(s.proposal_metadata)
            &&& t.proposals_maturing_at == s.proposals_maturing_at
            &&& t.pip_id_sequence == s.pip_id_sequence
            &&& t.block_number == s.block_number
            &&& t.config == s.config
        }),
    decreases ids.len(),
{
    if ids.len() > 0 {
        let rest = ids.drop_last();
        lemma_settle_all(s, rest, members);
        let m = s.settle_all(rest, members);
        lemma_settle(m, ids.last(), members);
        let t = s.settle_all(ids, members);
        assert forall|i: PipId| #[trigger] t.pending(i) <==> s.pending(i) && !ids.contains(i) by {
            assert(t.pending(i) <==> m.pending(i) && i != ids.last());
            assert(m.pending(i) <==> s.pending(i) && !rest.contains(i));
            lemma_last_contains(ids, i);
        }
        assert forall|i: PipId| #[trigger] t.pending(i) implies t.proposal_metadata[i]
            == s.proposal_metadata[i] && t.result_of(i) == s.result_of(i) by {
            assert(m.pending(i));
        }
    }
}

/// The end of the voting at a block keeps the invariant.
pub proof fn end_block_keeps_inv(s: State, block: BlockNumber, members: u32)
    requires
        s.inv(),
    ensures
        s.end_block(block, members).inv(),
{
    let m = s.mature(block);
    let ids = seq_at(s.proposals_maturing_at, block);
    assert forall|i: PipId| #[trigger] m.sound(i) by {
        assert(s.sound(i));
    }
    lemma_settle_all(m, ids, members);
    let c = s.close_voting(block, members);
    let t = s.end_block(block, members);
    assert forall|i: PipId| #[trigger] t.sound(i) by {
        assert(c.sound(i));
    }
    assert forall|i: PipId| #[trigger] t.listed(i) by {
        assert(s.listed(i));
        if t.pending(i) {
            assert(c.pending(i));
            assert(m.pending(i));
            assert(s.pending(i));
        }
        assert forall|b: BlockNumber| #[trigger]
            seq_at(t.proposals_maturing_at, b).contains(i) implies t.ends_at(i, b) by {
            assert(seq_at(s.proposals_maturing_at, b).contains(i));
        }
    }
}

} // verus!
