//! What holds of the module as a whole.
use crate::history::Step;
use crate::ledger::{
    distinct, filed, lemma_lookup_entry, lemma_lookup_none, lemma_lookup_put, lookup,
};
use crate::model::{ballot, deposits_in, matched, payments_to, refused, Deposits, State};
use crate::pips::refund_report;
use crate::soundness::{
    amend_keeps_inv, begin_block_keeps_inv, bond_keeps_inv, cancel_keeps_inv,
    complete_keeps_inv, cool_off_has_one_voter, emergency_keeps_inv, end_block_keeps_inv,
    fast_track_keeps_inv, genesis_is_sound, kill_keeps_inv, lemma_matched_distinct,
    lemma_settle_all, propose_keeps_inv,
    records_alone_matter, reject_keeps_inv, reschedule_keeps_inv, same_records,
    schedule_keeps_inv, unbond_keeps_inv, vote_keeps_inv,
};
use crate::table::{lemma_last_contains, seq_at};
use crate::tally::{
    ayes_stake, counted, lemma_counted_tallied, nays_stake, tallied, Ballots,
};
use crate::types::{
    AccountId, Balance, BlockNumber, Config, DepositInfo, EffectView, Error, Event, MetadataView,
    Origin, PipId, ProposalState, ReferendumState, ReferendumType, Vote,
};
use vstd::prelude::*;

verus! {

/// Every call keeps the invariant.
pub proof fn every_step_is_sound(s: State, step: Step)
    requires
        s.inv(),
        s.allows(step),
    ensures
        s.after(step).inv(),
{
    let t = s.after(step);
    if s.outcome(step) is Err {
        records_alone_matter(s, t);
    } else {
        match step {
            Step::SetPruneHistoricalPips { .. } => records_alone_matter(s, t),
            Step::SetMinProposalDeposit { .. } => records_alone_matter(s, t),
            Step::SetQuorumThreshold { .. } => records_alone_matter(s, t),
            Step::SetProposalDuration { .. } => records_alone_matter(s, t),
            Step::SetDefaultEnactPeriod { .. } => records_alone_matter(s, t),
            Step::Propose { origin, call, deposit, url, description, beneficiaries, .. } =>
                propose_keeps_inv(
                    s,
                    origin.signer->0,
                    call,
                    deposit,
                    url,
                    description,
                    beneficiaries,
                ),
            Step::Amend { origin, id, url, description } => amend_keeps_inv(
                s,
                origin.signer->0,
                id,
                url,
                description,
            ),
            Step::Cancel { id, .. } => cancel_keeps_inv(s, id),
            Step::Bond { origin, id, additional, .. } => bond_keeps_inv(s, origin, id, additional),
            Step::Unbond { origin, id, amount } => unbond_keeps_inv(s, origin, id, amount),
            Step::CastVote { origin, id, aye, deposit, reserved } => vote_keeps_inv(
                s,
                origin,
                id,
                aye,
                deposit,
                reserved,
            ),
            Step::Kill { id, .. } => kill_keeps_inv(s, id),
            Step::FastTrack { id, members, .. } => fast_track_keeps_inv(s, id, members),
            Step::Emergency { origin, call, url, description, beneficiaries, members } =>
                emergency_keeps_inv(
                    s,
                    origin.signer->0,
                    call,
                    url,
                    description,
                    beneficiaries,
                    members,
                ),
            Step::Enact { id, .. } => schedule_keeps_inv(s, id),
            Step::Reject { id, .. } => reject_keeps_inv(s, id),
            Step::Reschedule { id, until, .. } => reschedule_keeps_inv(
                s,
                id,
                s.reschedule_to(until) as BlockNumber,
            ),
            Step::Initialize { block, members } => {
                begin_block_keeps_inv(s, block);
                end_block_keeps_inv(s.begin_block(block), block, members);
            },
            Step::EndBlock { block, members } => end_block_keeps_inv(s, block, members),
            Step::Complete { id, success } => complete_keeps_inv(s, id, success),
            Step::ClearSchedule { .. } => records_alone_matter(s, t),
            Step::TakeEffects => records_alone_matter(s, t),
        }
    }
}

/// The invariant holds after any sequence of calls on a new module.
pub proof fn every_history_is_sound(config: Config, steps: Seq<Step>)
    requires
        State::genesis(config).allows_all(steps),
    ensures
        State::genesis(config).after_all(steps).inv(),
    decreases steps.len(),
{
    if steps.len() == 0 {
        genesis_is_sound(config);
    } else {
        every_history_is_sound(config, steps.drop_last());
        every_step_is_sound(State::genesis(config).after_all(steps.drop_last()), steps.last());
    }
}

/// Whether two maps agree on a key.
pub open spec fn same_at<V>(m: Map<PipId, V>, n: Map<PipId, V>, id: PipId) -> bool {
    &&& m.contains_key(id) == n.contains_key(id)
    &&& m.contains_key(id) ==> m[id] == n[id]
}

/// Whether two states have the same records of the proposal `id`.
pub open spec fn untouched(s: State, t: State, id: PipId) -> bool {
    &&& same_at(s.proposal_metadata, t.proposal_metadata, id)
    &&& same_at(s.deposits, t.deposits, id)
    &&& same_at(s.proposals, t.proposals, id)
    &&& same_at(s.proposal_result, t.proposal_result, id)
    &&& same_at(s.proposal_votes, t.proposal_votes, id)
    &&& same_at(s.referendums, t.referendums, id)
}

/// Whether a call is about the proposal `id`: it names it, it makes it, or it ends the voting on
/// it.
pub open spec fn concerns(s: State, step: Step, id: PipId) -> bool {
    match step {
        Step::Propose { .. } => id == s.pip_id_sequence,
        Step::Amend { id: i, .. } => id == i,
        Step::Cancel { id: i, .. } => id == i,
        Step::Bond { id: i, .. } => id == i,
        Step::Unbond { id: i, .. } => id == i,
        Step::CastVote { id: i, .. } => id == i,
        Step::Kill { id: i, .. } => id == i,
        Step::FastTrack { id: i, .. } => id == i,
        Step::Emergency { .. } => id == s.pip_id_sequence,
        Step::Enact { id: i, .. } => id == i,
        Step::Reject { id: i, .. } => id == i,
        Step::Reschedule { id: i, .. } => id == i,
        Step::Initialize { block, .. } => seq_at(s.proposals_maturing_at, block).contains(id),
        Step::EndBlock { block, .. } => seq_at(s.proposals_maturing_at, block).contains(id),
        Step::Complete { id: i, .. } => id == i,
        _ => false,
    }
}

/// The end of the voting on one proposal does not touch the others.
proof fn lemma_settle_other(s: State, other: PipId, id: PipId, members: u32)
    requires
        other != id,
    ensures
        untouched(s, s.settle(other, members), id),
{
}

/// What the end of the voting makes of a proposal depends on its own records only.
proof fn lemma_settle_same(s: State, m: State, id: PipId, members: u32)
    requires
        untouched(s, m, id),
        s.config == m.config,
        s.block_number == m.block_number,
    ensures
        untouched(s.settle(id, members), m.settle(id, members), id),
{
}

/// The end of the voting on several proposals does to each of them what it would do alone.
pub proof fn lemma_settle_all_of(s: State, ids: Seq<PipId>, id: PipId, members: u32)
    ensures
        ({
            let t = s.settle_all(ids, members);
            &&& ids.contains(id) ==> untouched(s.settle(id, members), t, id)
            &&& !ids.contains(id) ==> untouched(s, t, id)
            &&& t.config == s.config
            &&& t.block_number == s.block_number
            &&& t.pip_id_sequence == s.pip_id_sequence
        }),
    decreases ids.len(),
{
    if ids.len() > 0 {
        let rest = ids.drop_last();
        let last = ids.last();
        let m = s.settle_all(rest, members);
        lemma_settle_all_of(s, rest, id, members);
        lemma_last_contains(ids, id);
        if last == id {
            if rest.contains(id) {
                assert(!m.pending(id));
            } else {
                lemma_settle_same(s, m, id, members);
            }
        } else {
            lemma_settle_other(m, last, id, members);
        }
    }
}

/// The end of the voting at a block does to each of the proposals that it ends what it would do
/// to that proposal alone, and leaves the others as they were.
pub proof fn lemma_end_block_of(s: State, block: BlockNumber, id: PipId, members: u32)
    ensures
        ({
            let t = s.end_block(block, members);
            let ids = seq_at(s.proposals_maturing_at, block);
            &&& ids.contains(id) ==> untouched(s.settle(id, members), t, id)
            &&& !ids.contains(id) ==> untouched(s, t, id)
            &&& t.config == s.config
            &&& t.block_number == s.block_number
            &&& t.pip_id_sequence == s.pip_id_sequence
        }),
{
    let m = s.mature(block);
    lemma_settle_all_of(m, seq_at(s.proposals_maturing_at, block), id, members);
    lemma_settle_same(s, m, id, members);
}

/// A call that ends no voting leaves the records of all proposals alone that it is not about.
pub proof fn lemma_call_of(s: State, step: Step, id: PipId)
    requires
        !concerns(s, step, id),
        !(step is Initialize),
        !(step is EndBlock),
    ensures
        untouched(s, s.after(step), id),
{
    let t = s.after(step);
    match step {
        Step::Propose { .. } => assert(untouched(s, t, id)),
        Step::Amend { .. } => assert(untouched(s, t, id)),
        Step::Cancel { .. } => assert(untouched(s, t, id)),
        Step::Bond { .. } => assert(untouched(s, t, id)),
        Step::Unbond { .. } => assert(untouched(s, t, id)),
        Step::CastVote { .. } => assert(untouched(s, t, id)),
        Step::Kill { .. } => assert(untouched(s, t, id)),
        Step::FastTrack { .. } => assert(untouched(s, t, id)),
        Step::Emergency { .. } => assert(untouched(s, t, id)),
        Step::Enact { .. } => assert(untouched(s, t, id)),
        Step::Reject { .. } => assert(untouched(s, t, id)),
        Step::Reschedule { .. } => assert(untouched(s, t, id)),
        Step::Complete { .. } => assert(untouched(s, t, id)),
        _ => {},
    }
}

/// A call leaves the records of all proposals alone that it is not about.
pub proof fn other_proposals_are_untouched(s: State, step: Step, id: PipId)
    requires
        s.inv(),
        s.allows(step),
        !concerns(s, step, id),
    ensures
        untouched(s, s.after(step), id),
{
    match step {
        Step::Initialize { block, members } => lemma_end_block_of(
            s.begin_block(block),
            block,
            id,
            members,
        ),
        Step::EndBlock { block, members } => lemma_end_block_of(s, block, id, members),
        _ => lemma_call_of(s, step, id),
    }
}

/// A proposal that comes to exist has an id that none had before: ids count up, and that of a
/// removed proposal is not given away again.
pub proof fn ids_are_not_reused(s: State, step: Step, id: PipId)
    requires
        s.inv(),
        s.allows(step),
    ensures
        s.after(step).pip_id_sequence >= s.pip_id_sequence,
        s.after(step).proposals.contains_key(id) && !s.proposals.contains_key(id) ==> id
            == s.pip_id_sequence && s.after(step).pip_id_sequence == id + 1,
{
    match step {
        Step::Initialize { block, members } => lemma_end_block_of(
            s.begin_block(block),
            block,
            id,
            members,
        ),
        Step::EndBlock { block, members } => lemma_end_block_of(s, block, id, members),
        _ => {},
    }
}

/// A decision on a proposal is final: a proposal that is not pending stays in its state, or is
/// removed.
pub proof fn decisions_are_final(s: State, step: Step, id: PipId)
    requires
        s.inv(),
        s.allows(step),
        s.proposals.contains_key(id),
        s.proposals[id].state != ProposalState::Pending,
    ensures
        s.after(step).proposals.contains_key(id) ==> s.after(step).proposals[id].state
            == s.proposals[id].state,
{
    assert(s.sound(id));
    match step {
        Step::Initialize { block, members } => lemma_end_block_of(
            s.begin_block(block),
            block,
            id,
            members,
        ),
        Step::EndBlock { block, members } => lemma_end_block_of(s, block, id, members),
        _ => {},
    }
}

/// A refused call changes nothing, but that a vote for which there was no room in the tally has
/// the deposit released that was reserved for it.
pub proof fn refused_calls_change_nothing(s: State, step: Step)
    requires
        s.outcome(step) is Err,
    ensures
        s.after(step) == s || (step matches Step::CastVote { origin, id, aye, deposit, reserved }
            && reserved && s.vote_check(origin, id) is Ok && counted(
            s.result_of(id),
            ballot(aye, deposit),
        ) is Err && s.after(step) == s.effect(
            EffectView::Unreserve { who: origin.signer->0, amount: deposit },
        )),
{
}

/// The community decides: when the voting on a pending proposal ends, it becomes a referendum
/// exactly if more stake was for it than against it and the stake for it reached the quorum
/// threshold; else it is rejected. Either way no deposits on it are held any more.
pub proof fn the_vote_decides(s: State, id: PipId, members: u32)
    requires
        s.inv(),
        s.pending(id),
    ensures
        ({
            let t = s.end_block(s.proposal_metadata[id].end, members);
            let voting = s.proposal_result[id];
            let passed = voting.ayes_stake > voting.nays_stake && voting.ayes_stake
                >= s.config.quorum_threshold;
            &&& !t.pending(id)
            &&& !t.deposits.contains_key(id)
            &&& passed == t.in_state(id, ProposalState::Referendum)
            &&& passed ==> {
                &&& t.referendums.contains_key(id)
                &&& t.referendums[id].referendum_type == ReferendumType::Community
                &&& t.referendums[id].state == if members < 2 {
                    ReferendumState::Scheduled
                } else {
                    ReferendumState::Pending
                }
            }
            &&& !passed && !s.config.prune_historical_pips ==> t.in_state(
                id,
                ProposalState::Rejected,
            )
            &&& !passed && s.config.prune_historical_pips ==> forgotten(t, id)
        }),
{
    let end = s.proposal_metadata[id].end;
    assert(s.sound(id));
    assert(s.listed(id));
    lemma_end_block_of(s, end, id, members);
    end_block_keeps_inv(s, end, members);
    assert(s.end_block(end, members).sound(id));
}

/// Whether nothing is left of the proposal `id`.
pub open spec fn forgotten(s: State, id: PipId) -> bool {
    &&& !s.proposal_metadata.contains_key(id)
    &&& !s.deposits.contains_key(id)
    &&& !s.proposals.contains_key(id)
    &&& !s.proposal_result.contains_key(id)
    &&& !s.proposal_votes.contains_key(id)
    &&& !s.referendums.contains_key(id)
}

/// More stake for a proposal, less stake against it or a lower quorum threshold never makes a
/// ballot fail that would pass without: if the proposal `id` becomes a referendum when its voting
/// ends in the state `s`, it does in the state `t`.
pub proof fn support_never_hurts(
    s: State,
    t: State,
    block: BlockNumber,
    id: PipId,
    members: u32,
    other_members: u32,
)
    requires
        s.pending(id),
        t.pending(id),
        seq_at(s.proposals_maturing_at, block).contains(id),
        seq_at(t.proposals_maturing_at, block).contains(id),
        s.result_of(id).ayes_stake <= t.result_of(id).ayes_stake,
        s.result_of(id).nays_stake >= t.result_of(id).nays_stake,
        s.config.quorum_threshold >= t.config.quorum_threshold,
        s.end_block(block, members).in_state(id, ProposalState::Referendum),
    ensures
        t.end_block(block, other_members).in_state(id, ProposalState::Referendum),
        t.end_block(block, other_members).referendums.contains_key(id),
        t.end_block(block, other_members).referendums[id].referendum_type
            == ReferendumType::Community,
{
    lemma_end_block_of(s, block, id, members);
    lemma_end_block_of(t, block, id, other_members);
}

/// From the block on at which the voting on a proposal ends, nobody can vote on it, and its owner
/// cannot change it.
pub proof fn voting_ends(s: State, id: PipId, members: u32, origin: Origin, later: BlockNumber)
    requires
        s.inv(),
        s.pending(id),
        s.block_number <= s.proposal_metadata[id].end,
    ensures
        ({
            let end = s.proposal_metadata[id].end;
            let t = s.begin_block(end).end_block(end, members).begin_block(later);
            &&& t.vote_check(origin, id) is Err
            &&& t.owner_check(origin, id) is Err
        }),
{
    let end = s.proposal_metadata[id].end;
    begin_block_keeps_inv(s, end);
    the_vote_decides(s.begin_block(end), id, members);
}

/// After the voting at a block has ended, no proposal is pending whose voting was to end at it.
pub proof fn all_voting_ends(s: State, block: BlockNumber, members: u32, id: PipId)
    requires
        s.inv(),
        s.end_block(block, members).pending(id),
    ensures
        s.end_block(block, members).proposal_metadata[id].end != block,
{
    let t = s.end_block(block, members);
    lemma_end_block_of(s, block, id, members);
    let ids = seq_at(s.proposals_maturing_at, block);
    assert(s.listed(id));
    assert(s.sound(id));
}

/// A ballot runs until the block at which it is to end, unless its owner cancels it during the
/// cool-off period, the governance committee kills it, or a member of it fast-tracks it.
pub proof fn ballots_run_their_course(s: State, step: Step, id: PipId)
    requires
        s.inv(),
        s.allows(step),
        s.pending(id),
        !s.after(step).pending(id),
    ensures
        match step {
            Step::Cancel { origin, id: i } => i == id && origin.signer == Some(
                s.proposal_metadata[id].proposer,
            ) && s.proposal_metadata[id].cool_off_until > s.block_number,
            Step::Kill { origin, id: i } => i == id && origin.committee,
            Step::FastTrack { origin, id: i, .. } => i == id && State::member_check(origin) is Ok,
            Step::Initialize { block, .. } => block == s.proposal_metadata[id].end,
            Step::EndBlock { block, .. } => block == s.proposal_metadata[id].end,
            _ => false,
        },
{
    assert(s.sound(id));
    assert(s.listed(id));
    match step {
        Step::Initialize { block, members } => lemma_end_block_of(
            s.begin_block(block),
            block,
            id,
            members,
        ),
        Step::EndBlock { block, members } => lemma_end_block_of(s, block, id, members),
        _ => {
            if !concerns(s, step, id) {
                lemma_call_of(s, step, id);
            }
        },
    }
}

/// Whether each pending proposal is still to have its voting ended at a later block.
pub open spec fn on_time(s: State) -> bool {
    forall|id: PipId| #[trigger] s.pending(id) ==> s.proposal_metadata[id].end > s.block_number
}

/// No ballot outlasts its end, where no block is left out and ballots do not end at the block at
/// which they are made.
pub proof fn no_ballot_overruns(s: State, step: Step)
    requires
        s.inv(),
        on_time(s),
        s.allows(step),
        step matches Step::Initialize { block, .. } ==> block <= s.block_number + 1,
        step is Propose ==> s.config.proposal_cool_off_period + s.config.proposal_duration > 0,
    ensures
        on_time(s.after(step)),
{
    let t = s.after(step);
    assert forall|id: PipId| #[trigger] t.pending(id) implies t.proposal_metadata[id].end
        > t.block_number by {
        assert(s.sound(id));
        assert(s.listed(id));
        match step {
            Step::Initialize { block, members } => {
                lemma_end_block_of(s.begin_block(block), block, id, members);
                assert(s.pending(id));
            },
            Step::EndBlock { block, members } => {
                lemma_end_block_of(s, block, id, members);
                assert(s.pending(id));
            },
            Step::Propose { .. } => {
                if id != s.pip_id_sequence {
                    assert(untouched(s, t, id));
                }
            },
            _ => {
                if !concerns(s, step, id) {
                    lemma_call_of(s, step, id);
                }
                assert(s.pending(id));
            },
        }
    }
}

/// What is voted on stays what it was: the call of a proposal never changes, and of its metadata
/// only the url and the description do, by the proposal's owner during the cool-off period.
pub proof fn only_owners_amend(s: State, step: Step, id: PipId)
    requires
        s.inv(),
        s.allows(step),
        s.proposals.contains_key(id),
        s.after(step).proposals.contains_key(id),
    ensures
        ({
            let t = s.after(step);
            let (before, now) = (s.proposal_metadata[id], t.proposal_metadata[id]);
            &&& t.proposals[id].proposal == s.proposals[id].proposal
            &&& now == before || (step matches Step::Amend { origin, id: i, url, description } && i
                == id && origin.signer == Some(before.proposer) && before.cool_off_until
                > s.block_number && now == (MetadataView { url, description, ..before }))
        }),
{
    assert(s.sound(id));
    match step {
        Step::Initialize { block, members } => lemma_end_block_of(
            s.begin_block(block),
            block,
            id,
            members,
        ),
        Step::EndBlock { block, members } => lemma_end_block_of(s, block, id, members),
        _ => {
            if !concerns(s, step, id) {
                lemma_call_of(s, step, id);
            }
        },
    }
}

/// Whether a call closes the proposal `id`.
pub open spec fn closes(step: Step, id: PipId) -> bool {
    match step {
        Step::Cancel { id: i, .. } => i == id,
        Step::Kill { id: i, .. } => i == id,
        Step::Reject { id: i, .. } => i == id,
        Step::Complete { id: i, .. } => i == id,
        _ => false,
    }
}

/// Where historical data is pruned, nothing is left of a proposal that is cancelled, killed,
/// rejected by the committee or executed.
pub proof fn pruning_leaves_nothing(s: State, step: Step, id: PipId)
    requires
        s.inv(),
        s.allows(step),
        s.config.prune_historical_pips,
        s.outcome(step) is Ok,
        closes(step, id),
    ensures
        forgotten(s.after(step), id),
{
    every_step_is_sound(s, step);
    assert(s.after(step).sound(id));
}

/// The sum of some deposits.
pub open spec fn locked(s: Deposits) -> nat
    decreases s.len(),
{
    if s.len() == 0 {
        0
    } else {
        locked(s.drop_last()) + s.last().1.amount as nat
    }
}

/// Deposits that belong to votes sum up to the stakes of the votes.
proof fn lemma_locked(deposits: Deposits, votes: Ballots)
    requires
        matched(deposits, votes),
    ensures
        locked(deposits) == ayes_stake(votes) + nays_stake(votes),
    decreases votes.len(),
{
    if votes.len() > 0 {
        let d = deposits.drop_last();
        let v = votes.drop_last();
        assert forall|i: int| 0 <= i < v.len() implies {
            &&& (#[trigger] d[i]).0 == v[i].0
            &&& d[i].1.owner == d[i].0
            &&& v[i].1 == Vote::Yes(d[i].1.amount) || v[i].1 == Vote::No(d[i].1.amount)
        } by {
            assert(deposits[i].0 == votes[i].0);
        }
        lemma_locked(d, v);
        assert(deposits[votes.len() - 1].0 == votes[votes.len() - 1].0);
    }
}

/// The tally of a proposal counts its votes, one per account: the voters of either side, and the
/// stake of either side.
pub proof fn the_tally_is_of_the_votes(s: State, id: PipId)
    requires
        s.inv(),
        s.proposal_result.contains_key(id),
    ensures
        distinct(seq_at(s.proposal_votes, id)),
        tallied(s.proposal_result[id], seq_at(s.proposal_votes, id)),
{
    assert(s.sound(id));
}

/// The state after the votes `ballots` have been cast on the proposal `id`, one after the other.
pub open spec fn cast_all(s: State, id: PipId, ballots: Ballots) -> State
    decreases ballots.len(),
{
    if ballots.len() == 0 {
        s
    } else {
        cast_all(s, id, ballots.drop_last()).cast(ballots.last().0, id, ballots.last().1)
    }
}

/// Whether the tally has room for each of the votes `ballots`, cast one after the other.
pub open spec fn all_counted(s: State, id: PipId, ballots: Ballots) -> bool
    decreases ballots.len(),
{
    ballots.len() == 0 || {
        &&& all_counted(s, id, ballots.drop_last())
        &&& counted(
            cast_all(s, id, ballots.drop_last()).result_of(id),
            ballots.last().1,
        ) is Ok
    }
}

/// Votes add up: after votes of different accounts on a proposal without any before, these are the
/// votes on it, and its tally counts them, the voters and the stake of either side.
pub proof fn votes_add_up(s: State, id: PipId, ballots: Ballots)
    requires
        !s.proposal_result.contains_key(id),
        seq_at(s.proposal_votes, id).len() == 0,
        distinct(ballots),
        all_counted(s, id, ballots),
    ensures
        seq_at(cast_all(s, id, ballots).proposal_votes, id) == ballots,
        tallied(cast_all(s, id, ballots).result_of(id), ballots),
    decreases ballots.len(),
{
    if ballots.len() == 0 {
        assert(seq_at(s.proposal_votes, id) =~= ballots);
    } else {
        let rest = ballots.drop_last();
        let (who, vote) = ballots.last();
        assert(ballots =~= rest.push((who, vote)));
        assert(distinct(rest));
        votes_add_up(s, id, rest);
        assert(!filed(rest, who)) by {
            if filed(rest, who) {
                let k = choose|k: int| 0 <= k < rest.len() && (#[trigger] rest[k]).0 == who;
                assert(ballots[k].0 == ballots[ballots.len() - 1].0);
            }
        }
        lemma_counted_tallied(cast_all(s, id, rest).result_of(id), rest, who, vote);
    }
}

/// The stake on a pending proposal, for and against it, is what is locked on it.
pub proof fn stake_is_locked(s: State, id: PipId)
    requires
        s.inv(),
        s.pending(id),
    ensures
        locked(s.deposits[id]) == s.proposal_result[id].ayes_stake
            + s.proposal_result[id].nays_stake,
{
    assert(s.sound(id));
    lemma_locked(s.deposits[id], s.proposal_votes[id]);
}

/// A vote on a pending proposal is backed by a deposit of the voter, as large as the stake; who
/// has not voted has no deposit.
pub proof fn votes_are_backed(s: State, id: PipId, who: AccountId)
    requires
        s.inv(),
        s.pending(id),
    ensures
        match s.vote_of(id, who) {
            Vote::Yes(stake) => lookup(s.deposits[id], who) == Some(
                DepositInfo { owner: who, amount: stake },
            ),
            Vote::No(stake) => lookup(s.deposits[id], who) == Some(
                DepositInfo { owner: who, amount: stake },
            ),
            Vote::NotCast => lookup(s.deposits[id], who) is None,
        },
{
    assert(s.sound(id));
    let votes = s.proposal_votes[id];
    let deposits = s.deposits[id];
    lemma_lookup_none(votes, who);
    lemma_lookup_none(deposits, who);
    lemma_matched_distinct(deposits, votes);
    if filed(votes, who) {
        let i = choose|i: int| 0 <= i < votes.len() && (#[trigger] votes[i]).0 == who;
        assert(deposits[i].0 == votes[i].0);
        lemma_lookup_entry(votes, i);
        lemma_lookup_entry(deposits, i);
    } else if filed(deposits, who) {
        let i = choose|i: int| 0 <= i < deposits.len() && (#[trigger] deposits[i]).0 == who;
        assert(votes[i].0 == who);
    }
}

/// No deposit is held on a proposal that is not pending.
pub proof fn decided_proposals_hold_no_deposits(s: State, id: PipId, who: AccountId)
    requires
        s.inv(),
        !s.pending(id),
    ensures
        !s.deposits.contains_key(id),
        s.deposit_of(id, who) == 0,
{
    assert(s.sound(id));
}

/// A vote that was accepted is recorded: it is the voter's vote, it is counted, and what was
/// reserved for it is the voter's deposit. The votes of others stay as they were.
pub proof fn a_vote_is_recorded(
    s: State,
    origin: Origin,
    id: PipId,
    aye: bool,
    deposit: Balance,
    other: AccountId,
)
    requires
        s.inv(),
        s.vote_result(origin, id, aye, deposit, true) is Ok,
    ensures
        ({
            let who = origin.signer->0;
            let t = s.vote(origin, id, aye, deposit, true);
            let (before, now) = (s.proposal_result[id], t.proposal_result[id]);
            &&& t.vote_of(id, who) == ballot(aye, deposit)
            &&& t.deposit_of(id, who) == deposit
            &&& aye ==> now.ayes_count == before.ayes_count + 1 && now.ayes_stake
                == before.ayes_stake + deposit && now.nays_count == before.nays_count
                && now.nays_stake == before.nays_stake
            &&& !aye ==> now.nays_count == before.nays_count + 1 && now.nays_stake
                == before.nays_stake + deposit && now.ayes_count == before.ayes_count
                && now.ayes_stake == before.ayes_stake
            &&& other != who ==> t.vote_of(id, other) == s.vote_of(id, other) && t.deposit_of(
                id,
                other,
            ) == s.deposit_of(id, other)
        }),
{
    let who = origin.signer->0;
    assert(s.sound(id));
    let votes = s.proposal_votes[id];
    let deposits = s.deposits[id];
    lemma_matched_distinct(deposits, votes);
    let vote = ballot(aye, deposit);
    let info = DepositInfo { owner: who, amount: deposit };
    lemma_lookup_put(votes, who, vote, who);
    lemma_lookup_put(votes, who, vote, other);
    lemma_lookup_put(deposits, who, info, who);
    lemma_lookup_put(deposits, who, info, other);
}

/// Nobody votes twice on a proposal: after a vote, each further vote of the same account is
/// refused as a duplicate.
pub proof fn nobody_votes_twice(
    s: State,
    origin: Origin,
    id: PipId,
    aye: bool,
    deposit: Balance,
    aye_again: bool,
    deposit_again: Balance,
    reserved_again: bool,
)
    requires
        s.inv(),
        s.vote_result(origin, id, aye, deposit, true) is Ok,
    ensures
        s.vote(origin, id, aye, deposit, true).vote_result(
            origin,
            id,
            aye_again,
            deposit_again,
            reserved_again,
        ) == refused(Error::DuplicateVote),
{
    a_vote_is_recorded(s, origin, id, aye, deposit, origin.signer->0);
}

/// The owner of a pending proposal votes for it, with all that the owner has deposited on it.
pub proof fn owners_vote_for_their_proposals(s: State, id: PipId)
    requires
        s.inv(),
        s.pending(id),
    ensures
        ({
            let owner = s.proposal_metadata[id].proposer;
            s.vote_of(id, owner) == Vote::Yes(s.deposit_of(id, owner))
        }),
{
    assert(s.sound(id));
    lemma_lookup_entry(s.proposal_votes[id], 0);
    votes_are_backed(s, id, s.proposal_metadata[id].proposer);
}

/// The calls of the owner on a proposal and the votes on it are never possible at the same time.
pub proof fn cool_off_and_voting_exclude_each_other(
    s: State,
    owner: Origin,
    voter: Origin,
    id: PipId,
)
    ensures
        !(s.owner_check(owner, id) is Ok && s.vote_check(voter, id) is Ok),
{
}

/// Once the cool-off period of a proposal is over, its owner cannot change it at any later block.
pub proof fn cool_off_ends_for_good(s: State, origin: Origin, id: PipId, later: BlockNumber)
    requires
        s.block_number <= later,
        s.proposal_metadata.contains_key(id) ==> s.proposal_metadata[id].cool_off_until
            <= s.block_number,
    ensures
        s.begin_block(later).owner_check(origin, id) is Err,
{
}

/// Adding to a deposit changes the owner's deposit and vote, and the stake for the proposal, by
/// what is reserved for it; releasing changes them by what is released.
pub proof fn deposits_follow_what_is_reserved(
    s: State,
    origin: Origin,
    id: PipId,
    additional: Balance,
    amount: Balance,
)
    requires
        s.inv(),
        s.owner_check(origin, id) is Ok,
    ensures
        ({
            let who = origin.signer->0;
            let held = s.deposit_of(id, who);
            let reserved = s.bond_amount(who, id, additional);
            let t = s.bond(who, id, additional);
            &&& reserved <= additional
            &&& reserved == additional || held + reserved == Balance::MAX
            &&& t.deposit_of(id, who) == held + reserved
            &&& t.vote_of(id, who) == Vote::Yes((held + reserved) as Balance)
            &&& t.proposal_result[id].ayes_stake == s.proposal_result[id].ayes_stake + reserved
        }),
        s.unbond_result(origin, id, amount) is Ok ==> ({
            let who = origin.signer->0;
            let held = s.deposit_of(id, who);
            let t = s.unbond(who, id, amount);
            &&& t.deposit_of(id, who) == held - amount
            &&& t.deposit_of(id, who) >= s.config.min_proposal_deposit
            &&& t.vote_of(id, who) == Vote::Yes((held - amount) as Balance)
            &&& t.proposal_result[id].ayes_stake == s.proposal_result[id].ayes_stake - amount
            &&& t.outbox[s.outbox.len() as int] == EffectView::Unreserve { who, amount }
        }),
{
    let who = origin.signer->0;
    cool_off_has_one_voter(s, id);
    assert(s.sound(id));
    let votes = s.proposal_votes[id];
    let deposits = s.deposits[id];
    let more = (s.deposit_of(id, who) + s.bond_amount(who, id, additional)) as Balance;
    let less = (s.deposit_of(id, who) - amount) as Balance;
    lemma_lookup_put(votes, who, Vote::Yes(more), who);
    lemma_lookup_put(deposits, who, DepositInfo { owner: who, amount: more }, who);
    lemma_lookup_put(votes, who, Vote::Yes(less), who);
    lemma_lookup_put(deposits, who, DepositInfo { owner: who, amount: less }, who);
}

/// Releasing what was added to a deposit undoes the addition, wherever the deposit before it is
/// still large enough for a proposal.
pub proof fn unbonding_undoes_bonding(s: State, origin: Origin, id: PipId, additional: Balance)
    requires
        s.inv(),
        s.owner_check(origin, id) is Ok,
        s.deposit_of(id, origin.signer->0) >= s.config.min_proposal_deposit,
    ensures
        ({
            let who = origin.signer->0;
            let amount = s.bond_amount(who, id, additional);
            let t = s.bond(who, id, additional);
            &&& t.unbond_result(origin, id, amount) is Ok
            &&& same_records(s, t.unbond(who, id, amount))
        }),
{
    let who = origin.signer->0;
    let amount = s.bond_amount(who, id, additional);
    let t = s.bond(who, id, additional);
    let u = t.unbond(who, id, amount);
    deposits_follow_what_is_reserved(s, origin, id, additional, amount);
    bond_keeps_inv(s, origin, id, additional);
    deposits_follow_what_is_reserved(t, origin, id, additional, amount);
    unbond_keeps_inv(t, origin, id, amount);
    cool_off_has_one_voter(s, id);
    cool_off_has_one_voter(u, id);
    assert(s.sound(id));
    assert(u.sound(id));
    assert(u.deposits =~= s.deposits);
    assert(u.proposal_votes =~= s.proposal_votes);
    assert(u.proposal_result =~= s.proposal_result);
}

/// Whether, on the way from `s` to `t`, the release of all deposits on the proposal `id` was
/// asked for once, and no other release was.
pub open spec fn refunds_all(s: State, t: State, id: PipId) -> bool {
    exists|k: int|
        #![trigger t.outbox[k]]
        {
            &&& s.outbox.len() <= k < t.outbox.len()
            &&& t.outbox.take(s.outbox.len() as int) == s.outbox
            &&& t.outbox[k] == EffectView::Refund { id, deposits: deposits_in(s.deposits[id]) }
            &&& forall|j: int|
                #![trigger t.outbox[j]]
                s.outbox.len() <= j < t.outbox.len() && j != k ==> t.outbox[j] is Deposit
        }
}

/// Whoever has a deposit on a proposal gets it back, once, when the proposal is cancelled, killed
/// or fast-tracked, and when the voting on it ends.
pub proof fn deposits_are_given_back(s: State, id: PipId, members: u32)
    requires
        s.inv(),
        s.pending(id),
    ensures
        refunds_all(s, s.cancel(id), id),
        refunds_all(s, s.kill(id), id),
        refunds_all(s, s.fast_track(id, members), id),
        refunds_all(s, s.settle(id, members), id),
{
    assert(s.sound(id));
    let n = s.outbox.len() as int;
    let cancelled = s.cancel(id);
    assert(cancelled.outbox.take(n) =~= s.outbox);
    assert(cancelled.outbox[n] is Refund);
    let killed = s.kill(id);
    assert(killed.outbox.take(n) =~= s.outbox);
    assert(killed.outbox[n] is Refund);
    let hastened = s.fast_track(id, members);
    assert(hastened.outbox.take(n) =~= s.outbox);
    assert(hastened.outbox[hastened.outbox.len() - 1] is Refund);
    let settled = s.settle(id, members);
    assert(settled.outbox.take(n) =~= s.outbox);
    if s.accepted(id) {
        assert(settled.outbox[n] is Refund);
    } else {
        assert(settled.outbox[n + 1] is Refund);
    }
}

/// Closing a proposal gives back the deposits that are still held on it, once.
pub proof fn closing_gives_deposits_back(s: State, id: PipId)
    requires
        s.deposits.contains_key(id),
    ensures
        !s.prune(id).deposits.contains_key(id),
        refunds_all(s, s.prune(id), id),
{
    let n = s.outbox.len() as int;
    let t = s.prune(id);
    assert(t.outbox.take(n) =~= s.outbox);
    assert(t.outbox[n] is Refund);
}

/// A second refund of a proposal releases nothing: it lists no deposit, changes no record, and is
/// reported with a total of 0.
pub proof fn a_second_refund_releases_nothing(s: State, id: PipId)
    ensures
        s.refund(id).refund(id) == s.refund(id).effect(
            EffectView::Refund { id, deposits: Seq::empty() },
        ),
        refund_report(id, Seq::empty(), Seq::empty()) == Event::ProposalRefund(id, 0),
{
    let t = s.refund(id);
    assert(t.deposits.remove(id) =~= t.deposits);
    assert(deposits_in(seq_at(t.deposits, id)) =~= Seq::empty());
}

/// A referendum whose execution succeeds has each of its beneficiaries paid once, in order; one
/// whose execution fails has nobody paid.
pub proof fn only_success_is_paid_for(s: State, id: PipId, success: bool)
    requires
        s.inv(),
        s.in_state(id, ProposalState::Referendum),
    ensures
        ({
            let t = s.complete(id, success);
            let owed = payments_to(s.proposal_metadata[id].beneficiaries);
            let n = s.outbox.len() as int;
            let paid = t.outbox.subrange(n + 1, t.outbox.len() - 1);
            &&& t.outbox.take(n) == s.outbox
            &&& t.outbox[n] is Deposit
            &&& t.outbox.last() is Deposit
            &&& success ==> paid == owed
            &&& !success ==> paid.len() == 0
        }),
{
    assert(s.sound(id));
    let t = s.complete(id, success);
    let owed = payments_to(s.proposal_metadata[id].beneficiaries);
    let n = s.outbox.len() as int;
    assert(t.outbox.take(n) =~= s.outbox);
    if success {
        assert(t.outbox.subrange(n + 1, t.outbox.len() - 1) =~= owed);
    }
}

/// The effects that the end of the voting on several proposals leaves: for each proposal that was
/// pending, the release of its deposits, once; besides, events only.
proof fn lemma_settle_all_refunds(s: State, ids: Seq<PipId>, id: PipId, members: u32)
    requires
        forall|i: PipId| #[trigger] s.sound(i),
    ensures
        ({
            let t = s.settle_all(ids, members);
            &&& s.outbox.len() <= t.outbox.len()
            &&& t.outbox.take(s.outbox.len() as int) == s.outbox
            &&& s.pending(id) && ids.contains(id) ==> given_back_once(s, t, id)
            &&& !(s.pending(id) && ids.contains(id)) ==> not_given_back(s, t, id)
        }),
    decreases ids.len(),
{
    let t = s.settle_all(ids, members);
    let n = s.outbox.len() as int;
    if ids.len() == 0 {
        assert(t.outbox.take(n) =~= s.outbox);
    } else {
        let rest = ids.drop_last();
        let last = ids.last();
        let m = s.settle_all(rest, members);
        lemma_settle_all_refunds(s, rest, id, members);
        lemma_settle_all(s, rest, members);
        lemma_settle_all_of(s, rest, id, members);
        lemma_last_contains(ids, id);
        let l = m.outbox.len() as int;
        assert(t.outbox.take(l) =~= m.outbox);
        assert(t.outbox.take(n) =~= t.outbox.take(l).take(n));
        assert forall|j: int| n <= j < l implies #[trigger] t.outbox[j] == m.outbox[j] by {
            assert(t.outbox.take(l)[j] == m.outbox[j]);
        }
        if s.pending(id) && rest.contains(id) {
            assert(!m.pending(id));
            let k = choose|k: int|
                #![trigger m.outbox[k]]
                n <= k < l && m.outbox[k] == (EffectView::Refund {
                    id,
                    deposits: deposits_in(s.deposits[id]),
                }) && forall|j: int|
                    #![trigger m.outbox[j]]
                    n <= j < l && j != k ==> plain(m.outbox[j], id);
            assert(t.outbox[k] == m.outbox[k]);
            assert forall|j: int|
                #![trigger t.outbox[j]]
                n <= j < t.outbox.len() && j != k implies plain(t.outbox[j], id) by {
                if j < l {
                    assert(plain(m.outbox[j], id));
                }
            }
            assert(given_back_once(s, t, id));
        } else {
            if s.pending(id) && last == id {
                assert(s.sound(id));
                assert(m.pending(id));
                let k = if m.accepted(id) {
                    l
                } else {
                    l + 1
                };
                assert(t.outbox[k] == (EffectView::Refund {
                    id,
                    deposits: deposits_in(s.deposits[id]),
                }));
                assert forall|j: int|
                    #![trigger t.outbox[j]]
                    n <= j < t.outbox.len() && j != k implies plain(t.outbox[j], id) by {
                    if j < l {
                        assert(plain(m.outbox[j], id));
                    }
                }
                assert(given_back_once(s, t, id));
            } else {
                assert forall|j: int|
                    #![trigger t.outbox[j]]
                    n <= j < t.outbox.len() implies plain(t.outbox[j], id) by {
                    if j < l {
                        assert(plain(m.outbox[j], id));
                    }
                }
            }
        }
    }
}

/// Whether an effect is an event, or the refund of another proposal than `id`.
pub open spec fn plain(effect: EffectView, id: PipId) -> bool {
    match effect {
        EffectView::Deposit(_) => true,
        EffectView::Refund { id: other, .. } => other != id,
        _ => false,
    }
}

/// Whether, on the way from `s` to `t`, no deposit on the proposal `id` was released.
pub open spec fn not_given_back(s: State, t: State, id: PipId) -> bool {
    forall|j: int|
        #![trigger t.outbox[j]]
        s.outbox.len() <= j < t.outbox.len() ==> plain(t.outbox[j], id)
}

/// Whether, on the way from `s` to `t`, all deposits on the proposal `id` were released once.
pub open spec fn given_back_once(s: State, t: State, id: PipId) -> bool {
    exists|k: int|
        #![trigger t.outbox[k]]
        {
            &&& s.outbox.len() <= k < t.outbox.len()
            &&& t.outbox[k] == EffectView::Refund { id, deposits: deposits_in(s.deposits[id]) }
            &&& forall|j: int|
                #![trigger t.outbox[j]]
                s.outbox.len() <= j < t.outbox.len() && j != k ==> plain(t.outbox[j], id)
        }
}

/// The end of the voting at a block gives back all deposits on each proposal whose voting ends
/// there, once, and releases no deposit on any other.
pub proof fn the_end_of_voting_gives_deposits_back(
    s: State,
    block: BlockNumber,
    members: u32,
    id: PipId,
)
    requires
        s.inv(),
    ensures
        s.pending(id) && s.proposal_metadata[id].end == block ==> given_back_once(
            s,
            s.end_block(block, members),
            id,
        ),
        !s.pending(id) || s.proposal_metadata[id].end != block ==> not_given_back(
            s,
            s.end_block(block, members),
            id,
        ),
{
    let m = s.mature(block);
    assert forall|i: PipId| #[trigger] m.sound(i) by {
        assert(s.sound(i));
    }
    assert(s.listed(id));
    assert(s.sound(id));
    lemma_settle_all_refunds(m, seq_at(s.proposals_maturing_at, block), id, members);
    let c = s.close_voting(block, members);
    let t = s.end_block(block, members);
    assert(t.outbox == c.outbox);
    if s.pending(id) && s.proposal_metadata[id].end == block {
        let k = choose|k: int|
            #![trigger c.outbox[k]]
            m.outbox.len() <= k < c.outbox.len() && c.outbox[k] == (EffectView::Refund {
                id,
                deposits: deposits_in(m.deposits[id]),
            }) && forall|j: int|
                #![trigger c.outbox[j]]
                m.outbox.len() <= j < c.outbox.len() && j != k ==> plain(c.outbox[j], id);
        assert(t.outbox[k] == c.outbox[k]);
    }
}

/// A proposal becomes a referendum for one of three reasons only: the community accepted it when
/// its voting ended, or a member of the governance committee fast-tracked it or made it.
pub proof fn referendums_have_a_reason(s: State, step: Step, id: PipId)
    requires
        s.inv(),
        s.allows(step),
        !s.referendums.contains_key(id),
        s.after(step).referendums.contains_key(id),
    ensures
        match step {
            Step::FastTrack { origin, id: i, .. } => i == id && s.pending(id)
                && State::member_check(origin) is Ok,
            Step::Emergency { origin, .. } => id == s.pip_id_sequence && State::member_check(
                origin,
            ) is Ok,
            Step::EndBlock { .. } => s.pending(id) && s.accepted(id),
            Step::Initialize { .. } => s.pending(id) && s.accepted(id),
            _ => false,
        },
{
    assert(s.sound(id));
    match step {
        Step::Initialize { block, members } => lemma_end_block_of(
            s.begin_block(block),
            block,
            id,
            members,
        ),
        Step::EndBlock { block, members } => lemma_end_block_of(s, block, id, members),
        _ => {
            if !concerns(s, step, id) {
                lemma_call_of(s, step, id);
            }
        },
    }
}

/// Only the governance committee changes the parameters.
pub proof fn only_the_committee_sets_parameters(s: State, step: Step)
    requires
        s.inv(),
        s.allows(step),
        s.after(step).config != s.config,
    ensures
        match step {
            Step::SetPruneHistoricalPips { origin, .. } => origin.committee,
            Step::SetMinProposalDeposit { origin, .. } => origin.committee,
            Step::SetQuorumThreshold { origin, .. } => origin.committee,
            Step::SetProposalDuration { origin, .. } => origin.committee,
            Step::SetDefaultEnactPeriod { origin, .. } => origin.committee,
            _ => false,
        },
{
    match step {
        Step::Initialize { block, members } => lemma_end_block_of(
            s.begin_block(block),
            block,
            0,
            members,
        ),
        Step::EndBlock { block, members } => lemma_end_block_of(s, block, 0, members),
        _ => {},
    }
}

/// A deposit on a proposal that stays pending becomes smaller only where its own owner releases a
/// part of it.
pub proof fn deposits_are_safe(s: State, step: Step, id: PipId, who: AccountId)
    requires
        s.inv(),
        s.allows(step),
        s.pending(id),
        s.after(step).pending(id),
        s.after(step).deposit_of(id, who) < s.deposit_of(id, who),
    ensures
        step matches Step::Unbond { origin, id: i, .. } && i == id && origin.signer == Some(who),
{
    let t = s.after(step);
    assert(s.sound(id));
    let votes = s.proposal_votes[id];
    let deposits = s.deposits[id];
    lemma_matched_distinct(deposits, votes);
    match step {
        Step::Initialize { block, members } => lemma_end_block_of(
            s.begin_block(block),
            block,
            id,
            members,
        ),
        Step::EndBlock { block, members } => lemma_end_block_of(s, block, id, members),
        Step::Bond { origin, id: i, additional, .. } => {
            if i == id && s.outcome(step) is Ok {
                let owner = origin.signer->0;
                let amount = (s.deposit_of(id, owner) + s.bond_amount(
                    owner,
                    id,
                    additional,
                )) as Balance;
                lemma_lookup_put(deposits, owner, DepositInfo { owner, amount }, who);
            }
        },
        Step::Unbond { origin, id: i, amount } => {
            if i == id && s.outcome(step) is Ok {
                let owner = origin.signer->0;
                let rest = (s.deposit_of(id, owner) - amount) as Balance;
                lemma_lookup_put(deposits, owner, DepositInfo { owner, amount: rest }, who);
            }
        },
        Step::CastVote { origin, id: i, aye, deposit, reserved } => {
            if i == id && s.outcome(step) is Ok {
                let voter = origin.signer->0;
                votes_are_backed(s, id, voter);
                lemma_lookup_put(
                    deposits,
                    voter,
                    DepositInfo { owner: voter, amount: deposit },
                    who,
                );
            }
        },
        _ => {
            if !concerns(s, step, id) {
                lemma_call_of(s, step, id);
            }
        },
    }
}

} // verus!
