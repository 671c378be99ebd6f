//! The schedule of referendums: a referendum is executed once, at the block that its enactment
//! period ends at.
use crate::history::Step;
use crate::laws::{concerns, lemma_call_of, lemma_end_block_of, lemma_settle_all_of, same_at};
use crate::model::{other_than, State};
use crate::soundness::{begin_block_keeps_inv, lemma_settle_all};
use crate::table::{lemma_push_contains, seq_at};
use crate::types::{
    BlockNumber, Config, PipId, ProposalState, ReferendumState, ReferendumType,
};
use vstd::prelude::*;

verus! {

/// Whether the referendum `id` is on the schedule for the block `block`.
pub open spec fn on_schedule(s: State, block: BlockNumber, id: PipId) -> bool {
    seq_at(s.scheduled_referendums_at, block).contains(id)
}

/// Whether the referendum `id` waits for the block `block`.
pub open spec fn awaits(s: State, block: BlockNumber, id: PipId) -> bool {
    &&& s.referendums.contains_key(id)
    &&& s.referendums[id].state == ReferendumState::Scheduled
    &&& s.referendums[id].enactment_period == block
}

/// Whether the schedule is right, while the referendums `running` have been handed out for
/// execution and not been completed: each scheduled referendum is on the list for its block, once,
/// or is running, and no other referendum is on a list.
pub open spec fn schedule_right(s: State, running: Set<PipId>) -> bool {
    &&& forall|block: BlockNumber|
        (#[trigger] seq_at(s.scheduled_referendums_at, block)).no_duplicates()
    &&& forall|block: BlockNumber, id: PipId| #[trigger]
        on_schedule(s, block, id) <==> awaits(s, block, id) && !running.contains(id)
    &&& forall|id: PipId| #[trigger]
        running.contains(id) ==> s.referendums.contains_key(id) && s.referendums[id].state
            == ReferendumState::Scheduled
}

/// The referendums that a call hands out for execution.
pub open spec fn handed_out(s: State, step: Step) -> Seq<PipId> {
    match step {
        Step::Initialize { block, members } => s.begin_block(block).due(block, members),
        Step::EndBlock { block, members } => s.due(block, members),
        _ => Seq::empty(),
    }
}

/// The referendums that are running after a call.
pub open spec fn running_after(s: State, running: Set<PipId>, step: Step) -> Set<PipId> {
    match step {
        Step::Initialize { .. } => running.union(handed_out(s, step).to_set()),
        Step::EndBlock { .. } => running.union(handed_out(s, step).to_set()),
        Step::Complete { id, .. } => running.remove(id),
        _ => running,
    }
}

/// Whether a call fits what is running: only a running referendum is completed, none that is
/// running is rescheduled, and no list with a referendum on it is dropped.
pub open spec fn in_turn(s: State, running: Set<PipId>, step: Step) -> bool {
    match step {
        Step::Complete { id, .. } => running.contains(id),
        Step::Reschedule { id, .. } => !running.contains(id),
        Step::ClearSchedule { block } => seq_at(s.scheduled_referendums_at, block).len() == 0,
        _ => true,
    }
}

/// Where schedule and referendums are the same, the schedule is right in both states.
pub proof fn lemma_same_schedule(s: State, t: State, running: Set<PipId>)
    requires
        schedule_right(s, running),
        t.scheduled_referendums_at == s.scheduled_referendums_at,
        forall|id: PipId, block: BlockNumber| #[trigger]
            awaits(t, block, id) == awaits(s, block, id),
        forall|id: PipId| #[trigger]
            running.contains(id) ==> t.referendums.contains_key(id) && t.referendums[id].state
                == ReferendumState::Scheduled,
    ensures
        schedule_right(t, running),
{
    assert forall|block: BlockNumber, id: PipId| #[trigger] on_schedule(t, block, id)
        <==> awaits(t, block, id) && !running.contains(id) by {
        assert(on_schedule(s, block, id) <==> awaits(s, block, id) && !running.contains(id));
    }
}

/// A referendum that is not waiting can be put on the schedule.
proof fn lemma_enter(s: State, t: State, running: Set<PipId>, at: BlockNumber, id: PipId)
    requires
        schedule_right(s, running),
        forall|block: BlockNumber| !awaits(s, block, id),
        awaits(t, at, id),
        forall|other: PipId, block: BlockNumber|
            other != id ==> #[trigger] awaits(t, block, other) == awaits(s, block, other),
        forall|other: PipId|
            other != id && #[trigger] running.contains(other) ==> t.referendums.contains_key(other)
                && t.referendums[other].state == ReferendumState::Scheduled,
        t.scheduled_referendums_at == s.scheduled_referendums_at.insert(
            at,
            seq_at(s.scheduled_referendums_at, at).push(id),
        ),
    ensures
        schedule_right(t, running),
{
    let before = seq_at(s.scheduled_referendums_at, at);
    let after = seq_at(t.scheduled_referendums_at, at);
    assert(!running.contains(id)) by {
        if running.contains(id) {
            assert(awaits(s, s.referendums[id].enactment_period, id));
        }
    }
    assert(!on_schedule(s, at, id));
    assert(before.no_duplicates());
    assert(after == before.push(id));
    assert(after.no_duplicates());
    assert forall|block: BlockNumber| (#[trigger] seq_at(
        t.scheduled_referendums_at,
        block,
    )).no_duplicates() by {
        if block != at {
            assert(seq_at(t.scheduled_referendums_at, block) == seq_at(
                s.scheduled_referendums_at,
                block,
            ));
        }
    }
    assert forall|block: BlockNumber, other: PipId| #[trigger] on_schedule(t, block, other)
        <==> awaits(t, block, other) && !running.contains(other) by {
        assert(on_schedule(s, block, other) <==> awaits(s, block, other) && !running.contains(
            other,
        ));
        if block == at {
            lemma_push_contains(before, id, other);
        }
        if other == id {
            assert(!awaits(s, block, id));
        }
    }
}

/// What a list without one id contains, and that it still has no duplicates.
proof fn lemma_without(list: Seq<PipId>, id: PipId)
    requires
        list.no_duplicates(),
    ensures
        list.filter(other_than(id)).no_duplicates(),
        forall|x: PipId| #[trigger]
            list.filter(other_than(id)).contains(x) <==> list.contains(x) && x != id,
    decreases list.len(),
{
    reveal(Seq::filter);
    if list.len() > 0 {
        let rest = list.drop_last();
        let last = list.last();
        assert(list =~= rest.push(last));
        assert(rest.no_duplicates());
        assert(!rest.contains(last)) by {
            if rest.contains(last) {
                let k = choose|k: int| 0 <= k < rest.len() && rest[k] == last;
                assert(list[k] == list[list.len() - 1]);
            }
        }
        lemma_without(rest, id);
        let kept = rest.filter(other_than(id));
        assert(!kept.contains(last));
        assert forall|x: PipId| #[trigger] list.filter(other_than(id)).contains(x)
            <==> list.contains(x) && x != id by {
            lemma_push_contains(rest, last, x);
            lemma_push_contains(kept, last, x);
            assert(kept.contains(x) <==> rest.contains(x) && x != id);
        }
    }
}

/// Making a referendum of a proposal that has none keeps the schedule right.
proof fn lemma_create(s: State, running: Set<PipId>, id: PipId, kind: ReferendumType, members: u32)
    requires
        schedule_right(s, running),
        !s.referendums.contains_key(id),
    ensures
        schedule_right(s.create_referendum(id, kind, members), running),
{
    let t = s.create_referendum(id, kind, members);
    if members < 2 {
        let at = t.referendums[id].enactment_period;
        lemma_enter(s, t, running, at, id);
    } else {
        lemma_same_schedule(s, t, running);
    }
}

/// The end of the voting on a proposal keeps the schedule right.
proof fn lemma_settle_schedule(s: State, running: Set<PipId>, id: PipId, members: u32)
    requires
        forall|i: PipId| #[trigger] s.sound(i),
        schedule_right(s, running),
    ensures
        schedule_right(s.settle(id, members), running),
{
    let t = s.settle(id, members);
    if s.pending(id) {
        assert(s.sound(id));
        if s.accepted(id) {
            let r = s.refund(id);
            lemma_same_schedule(s, r, running);
            lemma_create(r, running, id, ReferendumType::Community, members);
        } else {
            lemma_same_schedule(s, t, running);
        }
    }
}

/// The end of the voting on several proposals keeps the schedule right.
proof fn lemma_settle_all_schedule(
    s: State,
    running: Set<PipId>,
    ids: Seq<PipId>,
    members: u32,
)
    requires
        forall|i: PipId| #[trigger] s.sound(i),
        schedule_right(s, running),
    ensures
        schedule_right(s.settle_all(ids, members), running),
    decreases ids.len(),
{
    if ids.len() > 0 {
        lemma_settle_all(s, ids.drop_last(), members);
        lemma_settle_all_schedule(s, running, ids.drop_last(), members);
        lemma_settle_schedule(
            s.settle_all(ids.drop_last(), members),
            running,
            ids.last(),
            members,
        );
    }
}

/// The end of a block hands out exactly the referendums that wait for it.
proof fn lemma_end_block_schedule(
    s: State,
    running: Set<PipId>,
    block: BlockNumber,
    members: u32,
)
    requires
        s.inv(),
        schedule_right(s, running),
    ensures
        schedule_right(
            s.end_block(block, members),
            running.union(s.due(block, members).to_set()),
        ),
{
    let m = s.mature(block);
    assert forall|i: PipId| #[trigger] m.sound(i) by {
        assert(s.sound(i));
    }
    lemma_same_schedule(s, m, running);
    let c = s.close_voting(block, members);
    lemma_settle_all_schedule(m, running, seq_at(s.proposals_maturing_at, block), members);
    let due = s.due(block, members);
    let t = s.end_block(block, members);
    let now = running.union(due.to_set());
    assert forall|b: BlockNumber| (#[trigger] seq_at(
        t.scheduled_referendums_at,
        b,
    )).no_duplicates() by {
        assert(seq_at(c.scheduled_referendums_at, b).no_duplicates());
    }
    assert forall|b: BlockNumber, id: PipId| #[trigger] on_schedule(t, b, id) <==> awaits(t, b, id)
        && !now.contains(id) by {
        assert(on_schedule(c, b, id) <==> awaits(c, b, id) && !running.contains(id));
        assert(on_schedule(c, block, id) <==> awaits(c, block, id) && !running.contains(id));
        assert(due.to_set().contains(id) <==> due.contains(id));
    }
    assert forall|id: PipId| #[trigger] now.contains(id) implies t.referendums.contains_key(id)
        && t.referendums[id].state == ReferendumState::Scheduled by {
        if !running.contains(id) {
            assert(due.contains(id));
            assert(on_schedule(c, block, id));
        }
    }
}

/// Enacting a referendum keeps the schedule right: it is on the list for its block, once and only
/// there.
pub proof fn enacting_keeps_the_schedule(s: State, running: Set<PipId>, id: PipId)
    requires
        schedule_right(s, running),
        s.referendums.contains_key(id),
        s.referendums[id].state == ReferendumState::Pending,
    ensures
        schedule_right(s.schedule(id), running),
{
    let t = s.schedule(id);
    lemma_enter(s, t, running, t.referendums[id].enactment_period, id);
}

/// The schedule is right before the first block.
pub proof fn the_first_schedule_is_right(config: Config)
    ensures
        schedule_right(State::genesis(config), Set::empty()),
{
}

/// Every call keeps the schedule right: a scheduled referendum is on the list for the block that
/// its enactment period ends at, once, until it is handed out there to be executed.
pub proof fn every_step_keeps_the_schedule(s: State, running: Set<PipId>, step: Step)
    requires
        s.inv(),
        s.allows(step),
        schedule_right(s, running),
        in_turn(s, running, step),
    ensures
        schedule_right(s.after(step), running_after(s, running, step)),
{
    let t = s.after(step);
    match step {
        Step::Propose { .. } => lemma_same_schedule(s, t, running),
        Step::Amend { .. } => lemma_same_schedule(s, t, running),
        Step::Cancel { id, .. } => {
            assert(s.sound(id));
            lemma_same_schedule(s, t, running);
        },
        Step::Bond { .. } => lemma_same_schedule(s, t, running),
        Step::Unbond { .. } => lemma_same_schedule(s, t, running),
        Step::CastVote { .. } => lemma_same_schedule(s, t, running),
        Step::Kill { id, .. } => {
            assert(s.sound(id));
            lemma_same_schedule(s, t, running);
        },
        Step::FastTrack { id, members, .. } => {
            assert(s.sound(id));
            if s.outcome(step) is Ok {
                let c = s.create_referendum(id, ReferendumType::FastTracked, members);
                lemma_create(s, running, id, ReferendumType::FastTracked, members);
                lemma_same_schedule(c, t, running);
            }
        },
        Step::Emergency { members, .. } => {
            let id = s.pip_id_sequence;
            assert(s.sound(id));
            if s.outcome(step) is Ok {
                if members < 2 {
                    lemma_enter(s, t, running, t.referendums[id].enactment_period, id);
                } else {
                    lemma_same_schedule(s, t, running);
                }
            }
        },
        Step::Enact { id, .. } => {
            if s.outcome(step) is Ok {
                enacting_keeps_the_schedule(s, running, id);
            }
        },
        Step::Reject { id, .. } => {
            if s.outcome(step) is Ok {
                assert(!running.contains(id));
                lemma_same_schedule(s, t, running);
            }
        },
        Step::Reschedule { id, until, .. } => {
            if s.outcome(step) is Ok {
                lemma_reschedule(s, running, id, s.reschedule_to(until) as BlockNumber);
            }
        },
        Step::Initialize { block, members } => {
            let b = s.begin_block(block);
            begin_block_keeps_inv(s, block);
            lemma_same_schedule(s, b, running);
            lemma_end_block_schedule(b, running, block, members);
        },
        Step::EndBlock { block, members } => lemma_end_block_schedule(s, running, block, members),
        Step::Complete { id, success } => lemma_complete(s, running, id, success),
        Step::ClearSchedule { block } => {
            assert forall|b: BlockNumber| #[trigger] seq_at(t.scheduled_referendums_at, b)
                =~= seq_at(s.scheduled_referendums_at, b) by {}
            assert forall|b: BlockNumber, id: PipId| #[trigger] on_schedule(t, b, id)
                <==> awaits(t, b, id) && !running.contains(id) by {
                assert(seq_at(t.scheduled_referendums_at, b) == seq_at(
                    s.scheduled_referendums_at,
                    b,
                ));
                assert(on_schedule(s, b, id) <==> awaits(s, b, id) && !running.contains(id));
            }
            assert forall|b: BlockNumber| (#[trigger] seq_at(
                t.scheduled_referendums_at,
                b,
            )).no_duplicates() by {
                assert(seq_at(t.scheduled_referendums_at, b) == seq_at(
                    s.scheduled_referendums_at,
                    b,
                ));
                assert(seq_at(s.scheduled_referendums_at, b).no_duplicates());
            }
        },
        _ => lemma_same_schedule(s, t, running),
    }
}

/// Rescheduling a referendum that is not running keeps the schedule right.
proof fn lemma_reschedule(s: State, running: Set<PipId>, id: PipId, until: BlockNumber)
    requires
        schedule_right(s, running),
        s.referendums.contains_key(id),
        s.referendums[id].state == ReferendumState::Scheduled,
        !running.contains(id),
    ensures
        schedule_right(s.reschedule(id, until), running),
{
    let t = s.reschedule(id, until);
    let before = s.referendums[id].enactment_period;
    let list = seq_at(s.scheduled_referendums_at, before);
    assert(list.no_duplicates());
    lemma_without(list, id);
    let rest = s.unschedule(id, before);
    assert forall|b: BlockNumber, x: PipId| #[trigger] seq_at(rest, b).contains(x) <==> on_schedule(
        s,
        b,
        x,
    ) && x != id by {
        assert(on_schedule(s, b, x) <==> awaits(s, b, x) && !running.contains(x));
        if b == before {
            assert(list.filter(other_than(id)).contains(x) <==> list.contains(x) && x != id);
        } else {
            assert(!awaits(s, b, id));
            assert(seq_at(rest, b) == seq_at(s.scheduled_referendums_at, b));
        }
    }
    assert forall|b: BlockNumber| (#[trigger] seq_at(rest, b)).no_duplicates() by {
        if b != before {
            assert(seq_at(rest, b) == seq_at(s.scheduled_referendums_at, b));
            assert(seq_at(s.scheduled_referendums_at, b).no_duplicates());
        }
    }
    assert(!seq_at(rest, until).contains(id));
    assert forall|b: BlockNumber| (#[trigger] seq_at(
        t.scheduled_referendums_at,
        b,
    )).no_duplicates() by {
        assert(seq_at(rest, b).no_duplicates());
        if b != until {
            assert(seq_at(t.scheduled_referendums_at, b) == seq_at(rest, b));
        }
    }
    assert forall|b: BlockNumber, x: PipId| #[trigger] on_schedule(t, b, x) <==> awaits(t, b, x)
        && !running.contains(x) by {
        assert(on_schedule(s, b, x) <==> awaits(s, b, x) && !running.contains(x));
        assert(seq_at(rest, b).contains(x) <==> on_schedule(s, b, x) && x != id);
        if b == until {
            lemma_push_contains(seq_at(rest, until), id, x);
        } else {
            assert(seq_at(t.scheduled_referendums_at, b) == seq_at(rest, b));
        }
    }
}

/// Completing a running referendum keeps the schedule right.
proof fn lemma_complete(s: State, running: Set<PipId>, id: PipId, success: bool)
    requires
        schedule_right(s, running),
        running.contains(id),
    ensures
        schedule_right(s.complete(id, success), running.remove(id)),
{
    let t = s.complete(id, success);
    let rest = running.remove(id);
    assert forall|b: BlockNumber, x: PipId| #[trigger] on_schedule(t, b, x) <==> awaits(t, b, x)
        && !rest.contains(x) by {
        assert(on_schedule(s, b, x) <==> awaits(s, b, x) && !running.contains(x));
    }
    assert forall|b: BlockNumber| (#[trigger] seq_at(
        t.scheduled_referendums_at,
        b,
    )).no_duplicates() by {
        assert(seq_at(s.scheduled_referendums_at, b).no_duplicates());
    }
}

/// Referendums move forward only: from pending to scheduled or rejected, and from scheduled to
/// executed or failed.
pub proof fn referendums_move_forward(s: State, running: Set<PipId>, step: Step, id: PipId)
    requires
        s.inv(),
        s.allows(step),
        schedule_right(s, running),
        in_turn(s, running, step),
        s.referendums.contains_key(id),
        s.after(step).referendums.contains_key(id),
    ensures
        ({
            let before = s.referendums[id].state;
            let now = s.after(step).referendums[id].state;
            ||| now == before
            ||| before == ReferendumState::Pending && (now == ReferendumState::Scheduled || now
                == ReferendumState::Rejected)
            ||| before == ReferendumState::Scheduled && (now == ReferendumState::Executed || now
                == ReferendumState::Failed)
        }),
{
    assert(s.sound(id));
    match step {
        Step::Initialize { block, members } => {
            begin_block_keeps_inv(s, block);
            lemma_end_block_of(s.begin_block(block), block, id, members);
        },
        Step::EndBlock { block, members } => lemma_end_block_of(s, block, id, members),
        _ => {},
    }
}

/// A referendum that the governance committee has to decide on is decided by a voting majority of
/// it only.
pub proof fn only_the_majority_ratifies(s: State, running: Set<PipId>, step: Step, id: PipId)
    requires
        s.inv(),
        s.allows(step),
        schedule_right(s, running),
        in_turn(s, running, step),
        s.referendums.contains_key(id),
        s.referendums[id].state == ReferendumState::Pending,
        !same_at(s.referendums, s.after(step).referendums, id),
    ensures
        match step {
            Step::Enact { origin, id: i } => i == id && origin.voting_majority,
            Step::Reject { origin, id: i } => i == id && origin.voting_majority,
            _ => false,
        },
{
    assert(s.sound(id));
    match step {
        Step::Initialize { block, members } => lemma_end_block_of(
            s.begin_block(block),
            block,
            id,
            members,
        ),
        Step::EndBlock { block, members } => lemma_end_block_of(s, block, id, members),
        _ => {
            if !concerns(s, step, id) {
                lemma_call_of(s, step, id);
            }
        },
    }
}

/// The referendums that are handed out for execution at a block are those that wait for it once its
/// voting has ended, each once; their proposals are at the referendum stage. All that waited for it
/// before are among them. No others are, unless the governance committee is too small to vote, so
/// that what the voting accepts is enacted at once.
pub proof fn the_due_are_those_that_wait(
    s: State,
    running: Set<PipId>,
    block: BlockNumber,
    members: u32,
    id: PipId,
)
    requires
        s.inv(),
        schedule_right(s, running),
    ensures
        s.due(block, members).no_duplicates(),
        s.due(block, members).contains(id) <==> awaits(
            s.close_voting(block, members),
            block,
            id,
        ) && !running.contains(id),
        s.due(block, members).contains(id) ==> s.end_block(block, members).in_state(
            id,
            ProposalState::Referendum,
        ),
        awaits(s, block, id) && !running.contains(id) ==> s.due(block, members).contains(id),
        members >= 2 && s.due(block, members).contains(id) ==> awaits(s, block, id),
{
    let m = s.mature(block);
    assert forall|i: PipId| #[trigger] m.sound(i) by {
        assert(s.sound(i));
    }
    lemma_same_schedule(s, m, running);
    let ids = seq_at(s.proposals_maturing_at, block);
    let c = s.close_voting(block, members);
    lemma_settle_all_schedule(m, running, ids, members);
    lemma_settle_all_of(m, ids, id, members);
    lemma_settle_all(m, ids, members);
    assert(m.sound(id));
    assert(c.sound(id));
    assert(on_schedule(c, block, id) <==> awaits(c, block, id) && !running.contains(id));
    assert(seq_at(c.scheduled_referendums_at, block).no_duplicates());
}

} // verus!
