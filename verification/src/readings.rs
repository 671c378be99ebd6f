//! What is read off the state, and what the sums and lists that it is made of stand for.
use crate::ledger::{distinct, lemma_lookup_entry, lemma_lookup_none, lookup, put};
use crate::model::State;
use crate::pips::{refund_report, released};
use crate::snapshot::Snapshot;
use crate::soundness::lemma_matched_distinct;
use crate::store::effects_view;
use crate::table::{map_of, seq_at};
use crate::tally::{ayes, ayes_stake, counted, nays, nays_stake, tallied, Ballots};
use crate::types::{
    nobody, AccountId, Balance, Deposit, Effect, EffectView, EncodedCall, Error, Event, EventView,
    Pip, PipDescription, PipId, PipsMetadata, ProposalData, ProposalDataView, ProposalState,
    Referendum, Url, Vote, VotingResult,
};
use vstd::prelude::*;

verus! {

/// The records of a proposal agree with each other at any time: a proposal has metadata, both under
/// its own id, which has been given away; exactly the proposals at the referendum stage have a
/// referendum, exactly the pending ones deposits; and votes come with their tally.
pub proof fn records_agree(s: State, id: PipId)
    requires
        s.inv(),
    ensures
        s.proposal_metadata.contains_key(id) == s.proposals.contains_key(id),
        s.proposals.contains_key(id) ==> id < s.pip_id_sequence && s.proposals[id].id == id
            && s.proposal_metadata[id].id == id,
        s.referendums.contains_key(id) <==> s.proposals.contains_key(id) && s.proposals[id].state
            == ProposalState::Referendum,
        s.referendums.contains_key(id) ==> s.referendums[id].id == id,
        s.deposits.contains_key(id) <==> s.proposals.contains_key(id) && s.proposals[id].state
            == ProposalState::Pending,
        s.proposal_votes.contains_key(id) == s.proposal_result.contains_key(id),
        s.proposal_votes.contains_key(id) ==> s.proposals.contains_key(id),
        s.deposits.contains_key(id) ==> s.proposal_votes.contains_key(id),
{
    assert(s.sound(id));
}

/// A proposal is in a state if it exists and that is its state.
pub proof fn states_are_read(s: State, id: PipId, state: ProposalState)
    ensures
        s.in_state(id, state) <==> s.proposals.contains_key(id) && s.proposals[id].state == state,
        s.pending(id) <==> s.proposals.contains_key(id) && s.proposals[id].state
            == ProposalState::Pending,
{
}

/// A list that was never begun is empty; any other is what was stored.
pub proof fn lists_are_read<T>(m: Map<u32, Seq<T>>, k: u32)
    ensures
        m.contains_key(k) ==> seq_at(m, k) == m[k],
        !m.contains_key(k) ==> seq_at(m, k).len() == 0,
{
}

/// Vote and deposit of an account are those of its entry; without one it has not voted and has
/// nothing deposited. The tally of a proposal without votes is of nothing.
pub proof fn entries_are_read(s: State, id: PipId, who: AccountId, i: int)
    requires
        s.inv(),
    ensures
        s.proposal_votes.contains_key(id) && 0 <= i < s.proposal_votes[id].len()
            && s.proposal_votes[id][i].0 == who ==> s.vote_of(id, who)
            == s.proposal_votes[id][i].1,
        s.deposits.contains_key(id) && 0 <= i < s.deposits[id].len() && s.deposits[id][i].0 == who
            ==> s.deposit_of(id, who) == s.deposits[id][i].1.amount,
        (forall|j: int|
            !(s.proposal_votes.contains_key(id) && 0 <= j < s.proposal_votes[id].len() && (
            #[trigger] s.proposal_votes[id][j]).0 == who)) ==> s.vote_of(id, who) == Vote::<
            Balance,
        >::NotCast,
        (forall|j: int|
            !(s.deposits.contains_key(id) && 0 <= j < s.deposits[id].len() && (
            #[trigger] s.deposits[id][j]).0 == who)) ==> s.deposit_of(id, who) == 0,
        s.proposal_result.contains_key(id) ==> s.result_of(id) == s.proposal_result[id],
        !s.proposal_result.contains_key(id) ==> s.result_of(id) == (VotingResult {
            ayes_count: 0u32,
            ayes_stake: 0u128,
            nays_count: 0u32,
            nays_stake: 0u128,
        }),
{
    assert(s.sound(id));
    if s.proposal_votes.contains_key(id) {
        let votes = s.proposal_votes[id];
        lemma_lookup_none(votes, who);
        if 0 <= i < votes.len() {
            lemma_lookup_entry(votes, i);
        }
    }
    if s.deposits.contains_key(id) {
        let deposits = s.deposits[id];
        lemma_matched_distinct(deposits, s.proposal_votes[id]);
        lemma_lookup_none(deposits, who);
        if 0 <= i < deposits.len() {
            lemma_lookup_entry(deposits, i);
        }
    }
}

/// In a list with at most one entry per account, what is found under an account is its entry, and
/// what is filed under it takes the place of its entry, or comes last where it has none. No other
/// entry is touched.
pub proof fn lists_have_one_entry_per_account<V>(
    list: Seq<(AccountId, V)>,
    who: AccountId,
    v: V,
    i: int,
)
    requires
        distinct(list),
    ensures
        0 <= i < list.len() && list[i].0 == who ==> lookup(list, who) == Some(list[i].1) && put(
            list,
            who,
            v,
        ) == list.update(i, (who, v)),
        (forall|j: int| 0 <= j < list.len() ==> (#[trigger] list[j]).0 != who) ==> lookup(
            list,
            who,
        ) is None && put(list, who, v) == list.push((who, v)),
{
    lemma_lookup_none(list, who);
    if 0 <= i < list.len() && list[i].0 == who {
        lemma_lookup_entry(list, i);
        assert forall|j: int| 0 <= j < list.len() && j != i implies (#[trigger] list[j]).0
            != who by {
            if j < i {
                assert(list[j].0 != list[i].0);
            } else {
                assert(list[i].0 != list[j].0);
            }
        }
        assert(put(list, who, v) =~= list.update(i, (who, v)));
    }
}

/// One more vote adds one voter and its stake to the side that it is on, and nothing to the other;
/// it fits unless the number of voters or the stake of its side would become too large, of which
/// the number is looked at first.
pub proof fn a_vote_counts_for_its_side(r: VotingResult<Balance>, stake: Balance)
    ensures
        ({
            let sum = counted(r, Vote::Yes(stake));
            let (full, rich) = (r.ayes_count == u32::MAX, r.ayes_stake + stake > Balance::MAX);
            &&& sum is Ok <==> !full && !rich
            &&& full ==> sum == Err::<VotingResult<Balance>, Error>(Error::NumberOfVotesExceeded)
            &&& !full && rich ==> sum == Err::<VotingResult<Balance>, Error>(
                Error::StakeAmountOfVotesExceeded,
            )
            &&& sum is Ok ==> sum->Ok_0.ayes_count == r.ayes_count + 1 && sum->Ok_0.ayes_stake
                == r.ayes_stake + stake && sum->Ok_0.nays_count == r.nays_count
                && sum->Ok_0.nays_stake == r.nays_stake
        }),
        ({
            let sum = counted(r, Vote::No(stake));
            let (full, rich) = (r.nays_count == u32::MAX, r.nays_stake + stake > Balance::MAX);
            &&& sum is Ok <==> !full && !rich
            &&& full ==> sum == Err::<VotingResult<Balance>, Error>(Error::NumberOfVotesExceeded)
            &&& !full && rich ==> sum == Err::<VotingResult<Balance>, Error>(
                Error::StakeAmountOfVotesExceeded,
            )
            &&& sum is Ok ==> sum->Ok_0.nays_count == r.nays_count + 1 && sum->Ok_0.nays_stake
                == r.nays_stake + stake && sum->Ok_0.ayes_count == r.ayes_count
                && sum->Ok_0.ayes_stake == r.ayes_stake
        }),
        counted(r, Vote::NotCast) == Ok::<VotingResult<Balance>, Error>(r),
{
}

/// The sums over votes: nothing of no votes, and with each vote one voter and its stake more on its
/// side. A tally of the votes has just these sums.
pub proof fn votes_sum_up(b: Ballots, who: AccountId, stake: Balance, r: VotingResult<Balance>)
    ensures
        ayes(Seq::empty()) == 0 && ayes_stake(Seq::empty()) == 0 && nays(Seq::empty()) == 0
            && nays_stake(Seq::empty()) == 0,
        ({
            let yes = b.push((who, Vote::Yes(stake)));
            &&& ayes(yes) == ayes(b) + 1
            &&& ayes_stake(yes) == ayes_stake(b) + stake
            &&& nays(yes) == nays(b)
            &&& nays_stake(yes) == nays_stake(b)
        }),
        ({
            let no = b.push((who, Vote::No(stake)));
            &&& nays(no) == nays(b) + 1
            &&& nays_stake(no) == nays_stake(b) + stake
            &&& ayes(no) == ayes(b)
            &&& ayes_stake(no) == ayes_stake(b)
        }),
        tallied(r, b) <==> r.ayes_count == ayes(b) && r.ayes_stake == ayes_stake(b) && r.nays_count
            == nays(b) && r.nays_stake == nays_stake(b),
{
    assert(b.push((who, Vote::Yes(stake))).drop_last() =~= b);
    assert(b.push((who, Vote::No(stake))).drop_last() =~= b);
}

/// The total of a refund is the sum of what was released, that is of each deposit but for what was
/// left of it; the report gives it as far as a balance can hold it.
pub proof fn refunds_sum_up(
    id: PipId,
    deposits: Seq<Deposit>,
    left: Seq<Balance>,
    one: Deposit,
    rest: Balance,
)
    requires
        deposits.len() == left.len(),
    ensures
        released(Seq::empty(), Seq::empty()) == 0,
        rest <= one.amount ==> released(deposits.push(one), left.push(rest)) == released(
            deposits,
            left,
        ) + one.amount - rest,
        rest > one.amount ==> released(deposits.push(one), left.push(rest)) == released(
            deposits,
            left,
        ),
        released(deposits, left) <= Balance::MAX ==> refund_report(id, deposits, left)
            == Event::ProposalRefund(id, released(deposits, left) as Balance),
        released(deposits, left) > Balance::MAX ==> refund_report(id, deposits, left)
            == Event::ProposalRefund(id, Balance::MAX),
{
    let more = deposits.push(one);
    assert(more.drop_last() =~= deposits);
    lemma_released_prefix(deposits, left, left.push(rest));
}

/// What was released depends on what was left of the deposits alone.
proof fn lemma_released_prefix(deposits: Seq<Deposit>, left: Seq<Balance>, more: Seq<Balance>)
    requires
        deposits.len() <= left.len(),
        deposits.len() <= more.len(),
        forall|i: int| 0 <= i < deposits.len() ==> left[i] == more[i],
    ensures
        released(deposits, left) == released(deposits, more),
    decreases deposits.len(),
{
    if deposits.len() > 0 {
        lemma_released_prefix(deposits.drop_last(), left, more);
    }
}

/// A list of entries stands for the map that their insertion one after the other makes.
pub proof fn entries_make_a_map<V: View>(entries: Seq<(u32, V)>, k: u32, v: V)
    ensures
        map_of(Seq::<(u32, V)>::empty()) == Map::<u32, V::V>::empty(),
        map_of(entries.push((k, v))) == map_of(entries).insert(k, v@),
{
    assert(entries.push((k, v)).drop_last() =~= entries);
}

/// The effects that are handed out are shown one by one, in their order.
pub proof fn effects_are_shown(effects: Seq<Effect>, i: int)
    ensures
        effects_view(effects).len() == effects.len(),
        0 <= i < effects.len() ==> effects_view(effects)[i] == effects[i]@,
{
}

/// What contracts say of a value shows all of it: of urls and descriptions their bytes, of each
/// record and effect every field.
pub proof fn views_show_everything(
    pip: Pip<EncodedCall>,
    meta: PipsMetadata,
    url: Url,
    description: PipDescription,
    digest: [u8; 32],
    call: Vec<u8>,
    event: Event,
)
    ensures
        pip@.id == pip.id && pip@.proposal == pip.proposal@ && pip@.state == pip.state,
        meta@.proposer == meta.proposer && meta@.id == meta.id && meta@.end == meta.end
            && meta@.cool_off_until == meta.cool_off_until && meta@.beneficiaries
            == meta.beneficiaries@,
        url@ == url.0@,
        description@ == description.0@,
        meta.url == Some(url) ==> meta@.url == Some(url.0@),
        meta.url is None ==> meta@.url is None,
        meta.description == Some(description) ==> meta@.description == Some(description.0@),
        meta.description is None ==> meta@.description is None,
        ProposalData::Hash(digest)@ == ProposalDataView::Hash(digest@),
        ProposalData::Proposal(call)@ == ProposalDataView::Proposal(call@),
        Effect::Deposit(event)@ == EffectView::Deposit(event@),
{
}

/// The account that stands for nobody is the one whose bytes are all zero.
pub proof fn nobody_is_all_zero(who: AccountId, i: int)
    ensures
        nobody(who) && 0 <= i < 32 ==> who.0@[i] == 0,
        who.0@ == Seq::new(32, |j: int| 0u8) ==> nobody(who),
{
}

/// A snapshot holds each part of the state under the name of that part.
pub proof fn snapshots_show_everything(
    snapshot: Snapshot,
    referendum: Referendum,
    tally: VotingResult<Balance>,
)
    ensures
        snapshot@.block_number == snapshot.block_number,
        snapshot@.config == snapshot.config,
        snapshot@.pip_id_sequence == snapshot.pip_id_sequence,
        snapshot@.proposal_metadata == map_of(snapshot.proposal_metadata@),
        snapshot@.proposals_maturing_at == map_of(snapshot.proposals_maturing_at@),
        snapshot@.deposits == map_of(snapshot.deposits@),
        snapshot@.proposals == map_of(snapshot.proposals@),
        snapshot@.proposal_result == map_of(snapshot.proposal_result@),
        snapshot@.proposal_votes == map_of(snapshot.proposal_votes@),
        snapshot@.referendums == map_of(snapshot.referendums@),
        snapshot@.scheduled_referendums_at == map_of(snapshot.scheduled_referendums_at@),
        snapshot@.outbox == effects_view(snapshot.effects@),
        referendum@ == referendum,
        tally@ == tally,
{
}

/// Every event is shown with all that it reports.
pub proof fn events_show_everything(event: Event)
    ensures
        match event {
            Event::PruningHistoricalPips(a, b) => event@ == EventView::PruningHistoricalPips(a, b),
            Event::ProposalCreated(who, id, deposit, url, description, cool, end, data) => {
                &&& event@ is ProposalCreated
                &&& event@->ProposalCreated_0 == who
                &&& event@->ProposalCreated_1 == id
                &&& event@->ProposalCreated_2 == deposit
                &&& (url matches Some(u) ==> event@->ProposalCreated_3 == Some(u.0@))
                &&& (url is None ==> event@->ProposalCreated_3 is None)
                &&& (description matches Some(d) ==> event@->ProposalCreated_4 == Some(d.0@))
                &&& (description is None ==> event@->ProposalCreated_4 is None)
                &&& event@->ProposalCreated_5 == cool
                &&& event@->ProposalCreated_6 == end
                &&& event@->ProposalCreated_7 == data@
            },
            Event::ProposalAmended(a, b, c, d) => event@ == EventView::ProposalAmended(a, b, c, d),
            Event::ProposalStateUpdated(a, b) => event@ == EventView::ProposalStateUpdated(a, b),
            Event::Voted(a, b, c, d) => event@ == EventView::Voted(a, b, c, d),
            Event::PipClosed(a, b) => event@ == EventView::PipClosed(a, b),
            Event::ReferendumCreated(a, b) => event@ == EventView::ReferendumCreated(a, b),
            Event::ReferendumScheduled(a, b, c) => event@ == EventView::ReferendumScheduled(
                a,
                b,
                c,
            ),
            Event::ReferendumStateUpdated(a, b) => event@ == EventView::ReferendumStateUpdated(
                a,
                b,
            ),
            Event::DefaultEnactmentPeriodChanged(a, b) => event@
                == EventView::DefaultEnactmentPeriodChanged(a, b),
            Event::MinimumProposalDepositChanged(a, b) => event@
                == EventView::MinimumProposalDepositChanged(a, b),
            Event::QuorumThresholdChanged(a, b) => event@ == EventView::QuorumThresholdChanged(
                a,
                b,
            ),
            Event::ProposalDurationChanged(a, b) => event@ == EventView::ProposalDurationChanged(
                a,
                b,
            ),
            Event::ProposalRefund(a, b) => event@ == EventView::ProposalRefund(a, b),
            Event::ProposalPayment(a, b) => event@ == EventView::ProposalPayment(a, b),
        },
{
}

} // verus!
