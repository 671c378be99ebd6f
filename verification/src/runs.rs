//! What holds over runs of calls: any number of calls, made one after the other.
use crate::history::Step;
use crate::laws::{
    ballots_run_their_course, concerns, decisions_are_final, every_step_is_sound,
    ids_are_not_reused, lemma_call_of, lemma_end_block_of, lemma_settle_all_of, only_owners_amend,
};
use crate::model::State;
use crate::schedule::{
    awaits, every_step_keeps_the_schedule, handed_out, in_turn, lemma_same_schedule,
    running_after, schedule_right, the_due_are_those_that_wait, the_first_schedule_is_right,
};
use crate::soundness::{begin_block_keeps_inv, genesis_is_sound};
use crate::table::seq_at;
use crate::types::{
    BlockNumber, Config, IdentityId, Origin, PipId, ProposalState, ReferendumState,
};
use vstd::prelude::*;

verus! {

/// Whether a call ends the voting at the block `block` and hands out what is due at it.
pub open spec fn ends_block(step: Step, block: BlockNumber) -> bool {
    match step {
        Step::Initialize { block: b, .. } => b == block,
        Step::EndBlock { block: b, .. } => b == block,
        _ => false,
    }
}

/// Whether one of the calls `steps` ends the block `block`.
pub open spec fn block_ended(steps: Seq<Step>, block: BlockNumber) -> bool
    decreases steps.len(),
{
    steps.len() > 0 && (block_ended(steps.drop_last(), block) || ends_block(steps.last(), block))
}

/// The invariant holds after any run of calls from a state in which it holds.
pub proof fn every_run_is_sound(s: State, steps: Seq<Step>)
    requires
        s.inv(),
        s.allows_all(steps),
    ensures
        s.after_all(steps).inv(),
    decreases steps.len(),
{
    if steps.len() > 0 {
        every_run_is_sound(s, steps.drop_last());
        every_step_is_sound(s.after_all(steps.drop_last()), steps.last());
    }
}

/// The ids of the proposals that the calls `steps` make, in the order in which they are made.
pub open spec fn ids_made(s: State, steps: Seq<Step>) -> Seq<PipId>
    decreases steps.len(),
{
    if steps.len() == 0 {
        Seq::empty()
    } else {
        let before = s.after_all(steps.drop_last());
        let ids = ids_made(s, steps.drop_last());
        if (steps.last() is Propose || steps.last() is Emergency) && before.outcome(
            steps.last(),
        ) is Ok {
            ids.push(before.pip_id_sequence)
        } else {
            ids
        }
    }
}

/// Ids count up: the proposals that a run of calls makes get one id after the other, whatever else
/// is done in between, so that none is given away twice.
pub proof fn ids_count_up(s: State, steps: Seq<Step>)
    requires
        s.allows_all(steps),
    ensures
        s.after_all(steps).pip_id_sequence == s.pip_id_sequence + ids_made(s, steps).len(),
        forall|i: int|
            0 <= i < ids_made(s, steps).len() ==> #[trigger] ids_made(s, steps)[i]
                == s.pip_id_sequence + i,
        ids_made(s, steps).no_duplicates(),
    decreases steps.len(),
{
    if steps.len() > 0 {
        let rest = steps.drop_last();
        let last = steps.last();
        let before = s.after_all(rest);
        ids_count_up(s, rest);
        match last {
            Step::Initialize { block, members } => lemma_end_block_of(
                before.begin_block(block),
                block,
                0,
                members,
            ),
            Step::EndBlock { block, members } => lemma_end_block_of(before, block, 0, members),
            _ => {},
        }
    }
}

/// Whether a call can take the proposal `id` out of its ballot before the end of the voting.
pub open spec fn withdraws(step: Step, id: PipId) -> bool {
    match step {
        Step::Cancel { id: i, .. } => i == id,
        Step::Kill { id: i, .. } => i == id,
        Step::FastTrack { id: i, .. } => i == id,
        _ => false,
    }
}

/// Whether none of the calls `steps` cancels, kills or fast-tracks the proposal `id`: each that is
/// to do so is refused.
pub open spec fn left_to_the_vote(s: State, steps: Seq<Step>, id: PipId) -> bool
    decreases steps.len(),
{
    steps.len() == 0 || {
        &&& left_to_the_vote(s, steps.drop_last(), id)
        &&& withdraws(steps.last(), id) ==> s.after_all(steps.drop_last()).outcome(
            steps.last(),
        ) is Err
    }
}

/// Whether the proposal `id` is one that the community has decided on, or is removed.
pub open spec fn decided(s: State, id: PipId) -> bool {
    ||| s.in_state(id, ProposalState::Referendum)
    ||| s.in_state(id, ProposalState::Rejected)
    ||| !s.proposals.contains_key(id)
}

/// How a run of calls goes on for a ballot.
proof fn lemma_ballot(s: State, steps: Seq<Step>, id: PipId, end: BlockNumber)
    requires
        s.inv(),
        s.pending(id),
        s.proposal_metadata[id].end == end,
        s.allows_all(steps),
        left_to_the_vote(s, steps, id),
    ensures
        ({
            let t = s.after_all(steps);
            &&& id < t.pip_id_sequence
            &&& !block_ended(steps, end) ==> t.pending(id) && t.proposal_metadata[id].end == end
            &&& block_ended(steps, end) ==> !t.pending(id) && decided(t, id)
        }),
    decreases steps.len(),
{
    assert(s.sound(id));
    if steps.len() > 0 {
        let rest = steps.drop_last();
        let last = steps.last();
        lemma_ballot(s, rest, id, end);
        every_run_is_sound(s, rest);
        every_run_is_sound(s, steps);
        let before = s.after_all(rest);
        let t = s.after_all(steps);
        assert(before.sound(id));
        assert(before.listed(id));
        assert(t.sound(id));
        ids_are_not_reused(before, last, id);
        if before.pending(id) {
            if !t.pending(id) {
                ballots_run_their_course(before, last, id);
            } else {
                only_owners_amend(before, last, id);
            }
            match last {
                Step::Initialize { block, members } => lemma_end_block_of(
                    before.begin_block(block),
                    block,
                    id,
                    members,
                ),
                Step::EndBlock { block, members } => lemma_end_block_of(
                    before,
                    block,
                    id,
                    members,
                ),
                _ => {},
            }
        } else if before.proposals.contains_key(id) {
            decisions_are_final(before, last, id);
        }
    }
}

/// A ballot runs for as many blocks as it had to when its proposal was made, whatever becomes of
/// the parameters: unless it is cancelled, killed or fast-tracked, it is pending after any run of
/// calls that has not ended the last of these blocks, and after any that has it is a referendum,
/// rejected or removed, and never pending again.
pub proof fn ballots_run_until_their_end(s: State, made: Step, steps: Seq<Step>)
    requires
        s.inv(),
        made is Propose,
        s.allows(made),
        s.outcome(made) is Ok,
        s.after(made).allows_all(steps),
        left_to_the_vote(s.after(made), steps, s.pip_id_sequence),
    ensures
        ({
            let id = s.pip_id_sequence;
            let end = s.block_number + s.config.proposal_cool_off_period
                + s.config.proposal_duration;
            let t = s.after(made).after_all(steps);
            &&& t.pending(id) <==> !block_ended(steps, end as BlockNumber)
            &&& block_ended(steps, end as BlockNumber) ==> decided(t, id)
        }),
{
    let id = s.pip_id_sequence;
    let t = s.after(made);
    every_step_is_sound(s, made);
    lemma_ballot(t, steps, id, t.proposal_metadata[id].end);
}

/// The referendums that are running after the calls `steps`.
pub open spec fn running_after_all(s: State, running: Set<PipId>, steps: Seq<Step>) -> Set<PipId>
    decreases steps.len(),
{
    if steps.len() == 0 {
        running
    } else {
        running_after(
            s.after_all(steps.drop_last()),
            running_after_all(s, running, steps.drop_last()),
            steps.last(),
        )
    }
}

/// Whether each of the calls `steps` can be made and fits what is running then.
pub open spec fn orderly(s: State, running: Set<PipId>, steps: Seq<Step>) -> bool
    decreases steps.len(),
{
    steps.len() == 0 || {
        let before = s.after_all(steps.drop_last());
        &&& orderly(s, running, steps.drop_last())
        &&& before.allows(steps.last())
        &&& in_turn(before, running_after_all(s, running, steps.drop_last()), steps.last())
    }
}

/// A run keeps the invariant and the schedule right.
proof fn lemma_orderly(s: State, running: Set<PipId>, steps: Seq<Step>)
    requires
        s.inv(),
        schedule_right(s, running),
        orderly(s, running, steps),
    ensures
        s.after_all(steps).inv(),
        schedule_right(s.after_all(steps), running_after_all(s, running, steps)),
    decreases steps.len(),
{
    if steps.len() > 0 {
        let rest = steps.drop_last();
        lemma_orderly(s, running, rest);
        every_step_is_sound(s.after_all(rest), steps.last());
        every_step_keeps_the_schedule(
            s.after_all(rest),
            running_after_all(s, running, rest),
            steps.last(),
        );
    }
}

/// The schedule is right after any run of calls on a new module.
pub proof fn every_history_keeps_the_schedule(config: Config, steps: Seq<Step>)
    requires
        orderly(State::genesis(config), Set::empty(), steps),
    ensures
        schedule_right(
            State::genesis(config).after_all(steps),
            running_after_all(State::genesis(config), Set::empty(), steps),
        ),
{
    genesis_is_sound(config);
    the_first_schedule_is_right(config);
    lemma_orderly(State::genesis(config), Set::empty(), steps);
}

/// How often the calls `steps` hand out the referendum `id`.
pub open spec fn times_handed_out(s: State, steps: Seq<Step>, id: PipId) -> nat
    decreases steps.len(),
{
    if steps.len() == 0 {
        0
    } else {
        times_handed_out(s, steps.drop_last(), id) + handed_out(
            s.after_all(steps.drop_last()),
            steps.last(),
        ).to_multiset().count(id)
    }
}

/// Whether one of the calls `steps` reschedules the referendum `id`.
pub open spec fn rescheduled(steps: Seq<Step>, id: PipId) -> bool
    decreases steps.len(),
{
    steps.len() > 0 && (rescheduled(steps.drop_last(), id) || (steps.last() matches
        Step::Reschedule { id: i, .. } && i == id))
}

/// Whether the referendum `id` has been handed out, and cannot be again unless it is rescheduled:
/// it is running, or it is over.
pub open spec fn spent(s: State, running: Set<PipId>, id: PipId) -> bool {
    &&& !s.pending(id)
    &&& id < s.pip_id_sequence
    &&& running.contains(id) || !s.referendums.contains_key(id) || s.referendums[id].state
        == ReferendumState::Executed || s.referendums[id].state == ReferendumState::Failed
}

/// Whether the execution of the referendum `id` is to dispatch the call `call`.
pub open spec fn dispatches(s: State, id: PipId, call: Seq<u8>) -> bool {
    s.in_state(id, ProposalState::Referendum) && s.proposals[id].proposal == call
}

/// What a call hands out: each referendum at most once, and of those whose proposals are not
/// pending exactly the ones that wait for the block that the call ends.
proof fn lemma_handed_out(s: State, running: Set<PipId>, step: Step, id: PipId)
    requires
        s.inv(),
        s.allows(step),
        schedule_right(s, running),
        !s.pending(id),
    ensures
        handed_out(s, step).no_duplicates(),
        handed_out(s, step).contains(id) <==> !running.contains(id) && exists|block: BlockNumber|
            ends_block(step, block) && #[trigger] awaits(s, block, id),
        handed_out(s, step).to_multiset().count(id) == if handed_out(s, step).contains(id) {
            1nat
        } else {
            0nat
        },
{
    match step {
        Step::Initialize { block, members } => {
            let b = s.begin_block(block);
            begin_block_keeps_inv(s, block);
            lemma_same_schedule(s, b, running);
            the_due_are_those_that_wait(b, running, block, members, id);
            lemma_settle_all_of(
                b.mature(block),
                seq_at(b.proposals_maturing_at, block),
                id,
                members,
            );
            assert(awaits(b.close_voting(block, members), block, id) == awaits(s, block, id));
        },
        Step::EndBlock { block, members } => {
            the_due_are_those_that_wait(s, running, block, members, id);
            lemma_settle_all_of(
                s.mature(block),
                seq_at(s.proposals_maturing_at, block),
                id,
                members,
            );
            assert(awaits(s.close_voting(block, members), block, id) == awaits(s, block, id));
        },
        _ => {},
    }
    let out = handed_out(s, step);
    out.lemma_multiset_has_no_duplicates();
    out.to_multiset_ensures();
}

/// What a call other than its rescheduling makes of a referendum that is scheduled or over.
proof fn lemma_referendum_step(s: State, running: Set<PipId>, step: Step, id: PipId)
    requires
        s.inv(),
        s.allows(step),
        schedule_right(s, running),
        in_turn(s, running, step),
        !(step matches Step::Reschedule { id: i, .. } && i == id),
        !s.pending(id),
        id < s.pip_id_sequence,
    ensures
        ({
            let t = s.after(step);
            &&& !t.pending(id)
            &&& id < t.pip_id_sequence
            &&& !running.contains(id) && s.referendums.contains_key(id) && s.referendums[id].state
                == ReferendumState::Scheduled ==> t.referendums.contains_key(id)
                && t.referendums[id] == s.referendums[id]
            &&& spent(s, running, id) ==> spent(t, running_after(s, running, step), id)
        }),
{
    let t = s.after(step);
    assert(s.sound(id));
    ids_are_not_reused(s, step, id);
    if s.proposals.contains_key(id) {
        decisions_are_final(s, step, id);
    }
    match step {
        Step::Initialize { block, members } => lemma_end_block_of(
            s.begin_block(block),
            block,
            id,
            members,
        ),
        Step::EndBlock { block, members } => lemma_end_block_of(s, block, id, members),
        _ => {
            if !concerns(s, step, id) {
                lemma_call_of(s, step, id);
            }
        },
    }
}

/// A scheduled referendum that is not running is handed out for execution exactly once, when its
/// block ends: not before, at no other block, and not again. What its execution is to dispatch is
/// the call that was proposed. (Rescheduling it is left out.)
pub proof fn scheduled_referendums_run_once(
    s: State,
    running: Set<PipId>,
    id: PipId,
    until: BlockNumber,
    steps: Seq<Step>,
)
    requires
        s.inv(),
        schedule_right(s, running),
        awaits(s, until, id),
        !running.contains(id),
        orderly(s, running, steps),
        !rescheduled(steps, id),
    ensures
        ({
            let t = s.after_all(steps);
            let now = running_after_all(s, running, steps);
            &&& !t.pending(id)
            &&& id < t.pip_id_sequence
            &&& !block_ended(steps, until) ==> awaits(t, until, id) && !now.contains(id)
                && dispatches(t, id, s.proposals[id].proposal)
            &&& block_ended(steps, until) ==> spent(t, now, id)
        }),
        times_handed_out(s, steps, id) == if block_ended(steps, until) {
            1nat
        } else {
            0nat
        },
        forall|j: int|
            0 <= j < steps.len() && #[trigger] handed_out(
                s.after_all(steps.take(j)),
                steps[j],
            ).contains(id) ==> ends_block(steps[j], until) && dispatches(
                s.after_all(steps.take(j + 1)),
                id,
                s.proposals[id].proposal,
            ),
    decreases steps.len(),
{
    assert(s.sound(id));
    if steps.len() > 0 {
        let rest = steps.drop_last();
        let last = steps.last();
        let n = rest.len() as int;
        let before = s.after_all(rest);
        let then = running_after_all(s, running, rest);
        scheduled_referendums_run_once(s, running, id, until, rest);
        lemma_orderly(s, running, rest);
        lemma_handed_out(before, then, last, id);
        lemma_referendum_step(before, then, last, id);
        every_step_is_sound(before, last);
        let t = s.after_all(steps);
        assert(t.sound(id));
        if before.proposals.contains_key(id) && t.proposals.contains_key(id) {
            only_owners_amend(before, last, id);
        }
        let out = handed_out(before, last);
        assert(out.to_set().contains(id) <==> out.contains(id));
        assert(ends_block(last, until) && awaits(before, until, id) ==> exists|block: BlockNumber|
            ends_block(last, block) && #[trigger] awaits(before, block, id));
        assert(steps.take(n) =~= rest);
        assert forall|j: int|
            0 <= j < steps.len() && #[trigger] handed_out(
                s.after_all(steps.take(j)),
                steps[j],
            ).contains(id) implies ends_block(steps[j], until) && dispatches(
            s.after_all(steps.take(j + 1)),
            id,
            s.proposals[id].proposal,
        ) by {
            if j < n {
                assert(steps.take(j) =~= rest.take(j));
                assert(steps.take(j + 1) =~= rest.take(j + 1));
                assert(handed_out(s.after_all(rest.take(j)), rest[j]).contains(id));
            } else {
                assert(steps.take(j + 1) =~= steps);
            }
        }
    }
}

/// A referendum that is enacted is handed out for execution exactly once, when the block ends at
/// which its enactment period is over: not before, at no other block, and not again. What its
/// execution is to dispatch is the call that was proposed. (Rescheduling it is left out.)
pub proof fn enacted_referendums_run_once(
    s: State,
    running: Set<PipId>,
    origin: Origin,
    id: PipId,
    steps: Seq<Step>,
)
    requires
        s.inv(),
        schedule_right(s, running),
        s.allows(Step::Enact { origin, id }),
        s.outcome(Step::Enact { origin, id }) is Ok,
        orderly(s.after(Step::Enact { origin, id }), running, steps),
        !rescheduled(steps, id),
    ensures
        ({
            let t = s.after(Step::Enact { origin, id });
            let at = (s.block_number + s.config.default_enactment_period) as BlockNumber;
            &&& t == s.schedule(id)
            &&& times_handed_out(t, steps, id) == if block_ended(steps, at) {
                1nat
            } else {
                0nat
            }
            &&& forall|j: int|
                0 <= j < steps.len() && #[trigger] handed_out(
                    t.after_all(steps.take(j)),
                    steps[j],
                ).contains(id) ==> ends_block(steps[j], at) && dispatches(
                    t.after_all(steps.take(j + 1)),
                    id,
                    s.proposals[id].proposal,
                )
        }),
{
    let step = Step::Enact { origin, id };
    let t = s.after(step);
    every_step_is_sound(s, step);
    every_step_keeps_the_schedule(s, running, step);
    scheduled_referendums_run_once(t, running, id, t.referendums[id].enactment_period, steps);
}

/// A rescheduled referendum is handed out for execution exactly once, when its new block ends: not
/// before, not at its old block, and not again. What its execution is to dispatch is the call that
/// was proposed. Where no block is named, the new block is the next one. (Rescheduling it again, or
/// while it is running, is left out.)
pub proof fn rescheduled_referendums_run_once(
    s: State,
    running: Set<PipId>,
    origin: Origin,
    id: PipId,
    until: Option<BlockNumber>,
    coordinator: Option<IdentityId>,
    steps: Seq<Step>,
)
    requires
        s.inv(),
        schedule_right(s, running),
        s.allows(Step::Reschedule { origin, id, until, coordinator }),
        s.outcome(Step::Reschedule { origin, id, until, coordinator }) is Ok,
        !running.contains(id),
        orderly(s.after(Step::Reschedule { origin, id, until, coordinator }), running, steps),
        !rescheduled(steps, id),
    ensures
        ({
            let t = s.after(Step::Reschedule { origin, id, until, coordinator });
            let at = match until {
                Some(block) => block,
                None => (s.block_number + 1) as BlockNumber,
            };
            &&& times_handed_out(t, steps, id) == if block_ended(steps, at) {
                1nat
            } else {
                0nat
            }
            &&& forall|j: int|
                0 <= j < steps.len() && #[trigger] handed_out(
                    t.after_all(steps.take(j)),
                    steps[j],
                ).contains(id) ==> ends_block(steps[j], at) && dispatches(
                    t.after_all(steps.take(j + 1)),
                    id,
                    s.proposals[id].proposal,
                )
        }),
{
    let step = Step::Reschedule { origin, id, until, coordinator };
    let t = s.after(step);
    every_step_is_sound(s, step);
    every_step_keeps_the_schedule(s, running, step);
    scheduled_referendums_run_once(t, running, id, t.referendums[id].enactment_period, steps);
}

} // verus!
