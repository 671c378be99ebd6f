//! What the end of a block and a change of parameters do, told by the records that they leave and
//! by what they ask the runtime to do.
use crate::laws::{lemma_settle_all_of, untouched};
use crate::model::State;
use crate::rules::{
    closed_as, leaves, lemma_release, others_stay, promoted, promoted_as_it_was, promotion_reports,
    release_of, report, same_frame,
};
use crate::soundness::lemma_settle_all;
use crate::table::{lemma_last_contains, seq_at};
use crate::types::{
    Balance, BlockNumber, Config, EffectView, EventView, PipId, ProposalState, ReferendumType,
};
use vstd::prelude::*;

verus! {

// Parameters.

/// Whether nothing but the parameters has changed.
pub open spec fn only_parameters_changed(s: State, t: State) -> bool {
    &&& t.block_number == s.block_number
    &&& t.pip_id_sequence == s.pip_id_sequence
    &&& t.proposal_metadata == s.proposal_metadata
    &&& t.proposals_maturing_at == s.proposals_maturing_at
    &&& t.deposits == s.deposits
    &&& t.proposals == s.proposals
    &&& t.proposal_result == s.proposal_result
    &&& t.proposal_votes == s.proposal_votes
    &&& t.referendums == s.referendums
    &&& t.scheduled_referendums_at == s.scheduled_referendums_at
    &&& t.config.proposal_cool_off_period == s.config.proposal_cool_off_period
    &&& t.config.max_reporting_size == s.config.max_reporting_size
}

/// Each parameter that is set takes the value that is handed in, and leaves the others alone; the
/// old and the new value are reported, in this order.
pub proof fn a_parameter_is_set_alone(
    s: State,
    prune: bool,
    deposit: Balance,
    threshold: Balance,
    duration: BlockNumber,
    period: BlockNumber,
)
    ensures
        ({
            let t = s.set_prune_historical_pips(prune);
            &&& only_parameters_changed(s, t)
            &&& t.config.prune_historical_pips == prune
            &&& t.config.min_proposal_deposit == s.config.min_proposal_deposit
            &&& t.config.quorum_threshold == s.config.quorum_threshold
            &&& t.config.proposal_duration == s.config.proposal_duration
            &&& t.config.default_enactment_period == s.config.default_enactment_period
            &&& leaves(
                s,
                t,
                seq![
                    report(
                        EventView::PruningHistoricalPips(s.config.prune_historical_pips, prune),
                    ),
                ],
            )
        }),
        ({
            let t = s.set_min_proposal_deposit(deposit);
            &&& only_parameters_changed(s, t)
            &&& t.config.prune_historical_pips == s.config.prune_historical_pips
            &&& t.config.min_proposal_deposit == deposit
            &&& t.config.quorum_threshold == s.config.quorum_threshold
            &&& t.config.proposal_duration == s.config.proposal_duration
            &&& t.config.default_enactment_period == s.config.default_enactment_period
            &&& leaves(
                s,
                t,
                seq![
                    report(
                        EventView::MinimumProposalDepositChanged(
                            s.config.min_proposal_deposit,
                            deposit,
                        ),
                    ),
                ],
            )
        }),
        ({
            let t = s.set_quorum_threshold(threshold);
            &&& only_parameters_changed(s, t)
            &&& t.config.prune_historical_pips == s.config.prune_historical_pips
            &&& t.config.min_proposal_deposit == s.config.min_proposal_deposit
            &&& t.config.quorum_threshold == threshold
            &&& t.config.proposal_duration == s.config.proposal_duration
            &&& t.config.default_enactment_period == s.config.default_enactment_period
            &&& leaves(
                s,
                t,
                seq![
                    report(
                        EventView::QuorumThresholdChanged(s.config.quorum_threshold, threshold),
                    ),
                ],
            )
        }),
        ({
            let t = s.set_proposal_duration(duration);
            &&& only_parameters_changed(s, t)
            &&& t.config.prune_historical_pips == s.config.prune_historical_pips
            &&& t.config.min_proposal_deposit == s.config.min_proposal_deposit
            &&& t.config.quorum_threshold == s.config.quorum_threshold
            &&& t.config.proposal_duration == duration
            &&& t.config.default_enactment_period == s.config.default_enactment_period
            &&& leaves(
                s,
                t,
                seq![
                    report(
                        EventView::ProposalDurationChanged(s.config.proposal_duration, duration),
                    ),
                ],
            )
        }),
        ({
            let t = s.set_default_enact_period(period);
            &&& only_parameters_changed(s, t)
            &&& t.config.prune_historical_pips == s.config.prune_historical_pips
            &&& t.config.min_proposal_deposit == s.config.min_proposal_deposit
            &&& t.config.quorum_threshold == s.config.quorum_threshold
            &&& t.config.proposal_duration == s.config.proposal_duration
            &&& t.config.default_enactment_period == period
            &&& leaves(
                s,
                t,
                seq![
                    report(
                        EventView::DefaultEnactmentPeriodChanged(
                            s.config.default_enactment_period,
                            period,
                        ),
                    ),
                ],
            )
        }),
{
    let c = s.config;
    let a = s.set_prune_historical_pips(prune);
    let b = s.set_min_proposal_deposit(deposit);
    let d = s.set_quorum_threshold(threshold);
    let e = s.set_proposal_duration(duration);
    let f = s.set_default_enact_period(period);
    assert(a.outbox =~= s.outbox + seq![
        report(EventView::PruningHistoricalPips(c.prune_historical_pips, prune)),
    ]);
    assert(b.outbox =~= s.outbox + seq![
        report(EventView::MinimumProposalDepositChanged(c.min_proposal_deposit, deposit)),
    ]);
    assert(d.outbox =~= s.outbox + seq![
        report(EventView::QuorumThresholdChanged(c.quorum_threshold, threshold)),
    ]);
    assert(e.outbox =~= s.outbox + seq![
        report(EventView::ProposalDurationChanged(c.proposal_duration, duration)),
    ]);
    assert(f.outbox =~= s.outbox + seq![
        report(EventView::DefaultEnactmentPeriodChanged(c.default_enactment_period, period)),
    ]);
}

// Blocks.

/// A new module knows no proposals, and has the parameters that it was made with.
pub proof fn a_new_module_is_empty(config: Config, id: PipId)
    ensures
        ({
            let s = State::genesis(config);
            &&& s.config == config
            &&& s.block_number == 0
            &&& s.pip_id_sequence == 0
            &&& !s.proposal_metadata.contains_key(id)
            &&& !s.deposits.contains_key(id)
            &&& !s.proposals.contains_key(id)
            &&& !s.proposal_result.contains_key(id)
            &&& !s.proposal_votes.contains_key(id)
            &&& !s.referendums.contains_key(id)
            &&& !s.proposals_maturing_at.contains_key(id)
            &&& !s.scheduled_referendums_at.contains_key(id)
            &&& s.outbox.len() == 0
        }),
{
}

/// The beginning of a block changes the number of the block, and nothing else.
pub proof fn a_block_begins(s: State, block: BlockNumber)
    ensures
        ({
            let t = s.begin_block(block);
            &&& t.block_number == block
            &&& t.config == s.config
            &&& t.pip_id_sequence == s.pip_id_sequence
            &&& t.proposal_metadata == s.proposal_metadata
            &&& t.proposals_maturing_at == s.proposals_maturing_at
            &&& t.deposits == s.deposits
            &&& t.proposals == s.proposals
            &&& t.proposal_result == s.proposal_result
            &&& t.proposal_votes == s.proposal_votes
            &&& t.referendums == s.referendums
            &&& t.scheduled_referendums_at == s.scheduled_referendums_at
            &&& t.outbox == s.outbox
        }),
{
}

/// Clearing the schedule of a block empties its list, and changes nothing else.
pub proof fn a_cleared_schedule_is_of_one_block(s: State, block: BlockNumber, other: BlockNumber)
    ensures
        ({
            let t = s.clear_schedule(block);
            let (before, after) = (s.scheduled_referendums_at, t.scheduled_referendums_at);
            &&& !after.contains_key(block)
            &&& other != block ==> after.contains_key(other) == before.contains_key(other)
            &&& other != block && before.contains_key(other) ==> after[other] == before[other]
            &&& t.block_number == s.block_number
            &&& t.config == s.config
            &&& t.pip_id_sequence == s.pip_id_sequence
            &&& t.proposal_metadata == s.proposal_metadata
            &&& t.proposals_maturing_at == s.proposals_maturing_at
            &&& t.deposits == s.deposits
            &&& t.proposals == s.proposals
            &&& t.proposal_result == s.proposal_result
            &&& t.proposal_votes == s.proposal_votes
            &&& t.referendums == s.referendums
            &&& t.outbox == s.outbox
        }),
{
}

/// Whether the proposal `id` is pending.
pub open spec fn undecided(s: State, id: PipId) -> bool {
    s.proposals.contains_key(id) && s.proposals[id].state == ProposalState::Pending
}

/// Whether the ballot on the proposal `id` has passed: the stake for it is larger than the stake
/// against it, and not below the quorum threshold.
pub open spec fn passed(s: State, id: PipId) -> bool {
    let tally = s.proposal_result[id];
    tally.ayes_stake > tally.nays_stake && !(tally.ayes_stake < s.config.quorum_threshold)
}

/// What the end of the ballot on the proposal `id` asks the runtime to do.
pub open spec fn ballot_effects(s: State, id: PipId, members: u32) -> Seq<EffectView> {
    if !undecided(s, id) {
        Seq::empty()
    } else if passed(s, id) {
        seq![release_of(s, id)] + promotion_reports(s, id, ReferendumType::Community, members)
    } else {
        seq![
            report(EventView::ProposalStateUpdated(id, ProposalState::Rejected)),
            release_of(s, id),
            report(EventView::PipClosed(id, s.config.prune_historical_pips)),
        ]
    }
}

/// When the ballot on a pending proposal ends, it becomes a referendum of the community if it has
/// passed, and is closed as rejected if not; either way its deposits are released. A proposal that
/// is not pending is left alone. Nothing else changes.
pub proof fn the_end_of_a_ballot(s: State, id: PipId, members: u32)
    requires
        s.sound(id),
    ensures
        ({
            let t = s.settle(id, members);
            &&& !undecided(s, id) ==> t == s
            &&& undecided(s, id) && passed(s, id) ==> {
                &&& promoted(s, t, id, ReferendumType::Community, members)
                &&& promoted_as_it_was(s, t, id)
            }
            &&& undecided(s, id) && !passed(s, id) ==> {
                &&& closed_as(s, t, id, ProposalState::Rejected)
                &&& same_frame(s, t)
                &&& others_stay(s, t, id)
            }
            &&& leaves(s, t, ballot_effects(s, id, members))
        }),
{
    let t = s.settle(id, members);
    if undecided(s, id) {
        lemma_release(s, id);
        if passed(s, id) {
            assert(t.outbox =~= s.outbox + ballot_effects(s, id, members));
        } else {
            let r = s.update_proposal_state(id, ProposalState::Rejected);
            lemma_release(r, id);
            assert(release_of(r, id) == release_of(s, id));
            assert(t.outbox =~= s.outbox + ballot_effects(s, id, members));
        }
    } else {
        assert(t.outbox =~= s.outbox + Seq::empty());
    }
}

/// What the end of several ballots asks the runtime to do: one after the other, each once.
pub open spec fn all_ballot_effects(s: State, ids: Seq<PipId>, members: u32) -> Seq<EffectView>
    decreases ids.len(),
{
    if ids.len() == 0 {
        Seq::empty()
    } else {
        let before = all_ballot_effects(s, ids.drop_last(), members);
        if ids.drop_last().contains(ids.last()) {
            before
        } else {
            before + ballot_effects(s, ids.last(), members)
        }
    }
}

/// The proposals among `ids` whose ballots pass, in this order, each once.
pub open spec fn passing(s: State, ids: Seq<PipId>) -> Seq<PipId>
    decreases ids.len(),
{
    if ids.len() == 0 {
        Seq::empty()
    } else {
        let (before, last) = (passing(s, ids.drop_last()), ids.last());
        if !ids.drop_last().contains(last) && undecided(s, last) && passed(s, last) {
            before.push(last)
        } else {
            before
        }
    }
}

/// How several ballots end, one after the other.
proof fn lemma_ballots_end(s: State, ids: Seq<PipId>, members: u32)
    requires
        forall|i: PipId| #[trigger] s.sound(i),
    ensures
        ({
            let t = s.settle_all(ids, members);
            let at = (s.block_number + s.config.default_enactment_period) as BlockNumber;
            let (before, after) = (s.scheduled_referendums_at, t.scheduled_referendums_at);
            &&& leaves(s, t, all_ballot_effects(s, ids, members))
            &&& members >= 2 ==> after == before
            &&& members < 2 ==> seq_at(after, at) == seq_at(before, at) + passing(s, ids)
            &&& forall|block: BlockNumber|
                block != at ==> #[trigger] seq_at(after, block) == seq_at(before, block)
        }),
    decreases ids.len(),
{
    let t = s.settle_all(ids, members);
    let at = (s.block_number + s.config.default_enactment_period) as BlockNumber;
    let before = s.scheduled_referendums_at;
    if ids.len() == 0 {
        assert(t.outbox =~= s.outbox + Seq::empty());
        assert(seq_at(before, at) + passing(s, ids) =~= seq_at(before, at));
    } else {
        let rest = ids.drop_last();
        let last = ids.last();
        let m = s.settle_all(rest, members);
        lemma_ballots_end(s, rest, members);
        lemma_settle_all(s, rest, members);
        lemma_settle_all_of(s, rest, last, members);
        lemma_last_contains(ids, last);
        assert(m.sound(last));
        assert(s.sound(last));
        the_end_of_a_ballot(m, last, members);
        if rest.contains(last) {
            assert(!undecided(m, last));
        } else {
            assert(untouched(s, m, last));
            assert(undecided(m, last) == undecided(s, last));
            if undecided(s, last) {
                assert(passed(m, last) == passed(s, last));
                assert(release_of(m, last) == release_of(s, last));
            }
            assert(ballot_effects(m, last, members) =~= ballot_effects(s, last, members));
        }
        assert(t.outbox =~= s.outbox + all_ballot_effects(s, ids, members));
        assert forall|block: BlockNumber| block != at implies #[trigger] seq_at(
            t.scheduled_referendums_at,
            block,
        ) == seq_at(before, block) by {
            assert(seq_at(m.scheduled_referendums_at, block) == seq_at(before, block));
        }
        assert(members < 2 ==> seq_at(t.scheduled_referendums_at, at) =~= seq_at(before, at)
            + passing(s, ids));
    }
}

/// The end of a block ends the ballots that are listed for it, in the order of the list, and hands
/// out what is scheduled for it, behind which come, where the committee is too small to vote and no
/// enactment period is to be waited for, the ballots that have just passed. Both lists are dropped;
/// no other list is touched, but that a small committee has what passed scheduled. Block,
/// parameters and ids stay as they are.
pub proof fn a_block_ends(s: State, block: BlockNumber, members: u32, other: BlockNumber)
    requires
        s.inv(),
    ensures
        ({
            let t = s.end_block(block, members);
            let ids = seq_at(s.proposals_maturing_at, block);
            let at = (s.block_number + s.config.default_enactment_period) as BlockNumber;
            let fresh = if members < 2 {
                passing(s, ids)
            } else {
                Seq::empty()
            };
            let (before, after) = (s.scheduled_referendums_at, t.scheduled_referendums_at);
            let (lists, left) = (s.proposals_maturing_at, t.proposals_maturing_at);
            &&& leaves(s, t, all_ballot_effects(s, ids, members))
            &&& s.due(block, members) == seq_at(before, block) + (if block == at {
                fresh
            } else {
                Seq::empty()
            })
            &&& !after.contains_key(block)
            &&& other != block ==> seq_at(after, other) == seq_at(before, other) + (if other == at {
                fresh
            } else {
                Seq::empty()
            })
            &&& !left.contains_key(block)
            &&& other != block ==> left.contains_key(other) == lists.contains_key(other)
            &&& other != block && lists.contains_key(other) ==> left[other] == lists[other]
            &&& t.block_number == s.block_number
            &&& t.config == s.config
            &&& t.pip_id_sequence == s.pip_id_sequence
        }),
{
    let ids = seq_at(s.proposals_maturing_at, block);
    let m = s.mature(block);
    let before = s.scheduled_referendums_at;
    assert forall|i: PipId| #[trigger] m.sound(i) by {
        assert(s.sound(i));
    }
    lemma_ballots_end(m, ids, members);
    lemma_settle_all(m, ids, members);
    lemma_same_ballots(s, m, ids, members);
    let c = s.close_voting(block, members);
    let t = s.end_block(block, members);
    assert(c.outbox == t.outbox);
    let after = c.scheduled_referendums_at;
    let at = (s.block_number + s.config.default_enactment_period) as BlockNumber;
    assert(block != at ==> seq_at(after, block) == seq_at(before, block));
    assert(other != at ==> seq_at(after, other) == seq_at(before, other));
    assert(seq_at(t.scheduled_referendums_at, other) == if other == block {
        Seq::empty()
    } else {
        seq_at(after, other)
    });
    assert(seq_at(before, block) + Seq::<PipId>::empty() =~= seq_at(before, block));
    assert(seq_at(before, other) + Seq::<PipId>::empty() =~= seq_at(before, other));
}

/// What the end of ballots does depends on the records and parameters alone.
proof fn lemma_same_ballots(s: State, m: State, ids: Seq<PipId>, members: u32)
    requires
        m.proposals == s.proposals,
        m.proposal_result == s.proposal_result,
        m.deposits == s.deposits,
        m.config == s.config,
        m.block_number == s.block_number,
    ensures
        all_ballot_effects(m, ids, members) == all_ballot_effects(s, ids, members),
        passing(m, ids) == passing(s, ids),
    decreases ids.len(),
{
    if ids.len() > 0 {
        lemma_same_ballots(s, m, ids.drop_last(), members);
        let last = ids.last();
        assert(release_of(m, last) == release_of(s, last));
        assert(ballot_effects(m, last, members) =~= ballot_effects(s, last, members));
    }
}

/// The limits of block numbers and ids: a proposal can be made as long as there is an id left and
/// its voting ends at a block with a number; a referendum can be enacted as long as the block at
/// which it would be executed has a number; and a block can be ended unless a small committee would
/// have a ballot enacted at it beyond the last block.
pub proof fn numbers_have_limits(s: State, block: BlockNumber, members: u32)
    requires
        s.inv(),
    ensures
        s.enactment_fits() <==> s.block_number + s.config.default_enactment_period <= u32::MAX,
        s.proposal_fits() <==> s.pip_id_sequence < u32::MAX && s.block_number
            + s.config.proposal_cool_off_period + s.config.proposal_duration <= u32::MAX,
        s.end_block_fits(block, members) <==> members >= 2 || s.block_number
            + s.config.default_enactment_period <= u32::MAX || forall|id: PipId|
            !(#[trigger] seq_at(s.proposals_maturing_at, block).contains(id) && undecided(s, id)
                && passed(s, id)),
{
    let ids = seq_at(s.proposals_maturing_at, block);
    assert forall|id: PipId| undecided(s, id) implies #[trigger] passed(s, id) == s.accepted(
        id,
    ) by {
        assert(s.sound(id));
    }
    if s.end_block_fits(block, members) && members < 2 && !s.enactment_fits() {
        assert forall|id: PipId| !(#[trigger] ids.contains(id) && undecided(s, id) && passed(
            s,
            id,
        )) by {
            if ids.contains(id) && undecided(s, id) {
                let k = choose|k: int| 0 <= k < ids.len() && ids[k] == id;
                assert(!(s.pending(ids[k]) && s.accepted(ids[k])));
            }
        }
    }
    if !s.end_block_fits(block, members) {
        let k = choose|k: int|
            0 <= k < ids.len() && s.pending(#[trigger] ids[k]) && s.accepted(ids[k]);
        assert(ids.contains(ids[k]) && undecided(s, ids[k]) && passed(s, ids[k]));
    }
}

} // verus!
