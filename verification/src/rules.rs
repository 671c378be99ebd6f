//! What each call does, told by its inputs, by the records that it leaves and by what it asks the
//! runtime to do: when it is accepted and with which error it is refused, what becomes of every
//! record, and how calls bear on each other.
use crate::hashing::blake_two_256;
use crate::laws::{forgotten, same_at, untouched};
use crate::ledger::{filed, lemma_lookup_entry, lemma_lookup_none};
use crate::model::{deposits_in, other_than, payments_to, reported, State};
use crate::soundness::{begin_block_keeps_inv, cool_off_has_one_voter, propose_keeps_inv};
use crate::table::seq_at;
use crate::types::{
    AccountId, Balance, Beneficiary, BlockNumber, DepositInfo, DispatchError, DispatchResult,
    EffectView, Error, EventView, IdentityId, Origin, Payment, PipId, ProposalDataView,
    ProposalState, ReferendumState, ReferendumType, Vote,
};
use vstd::prelude::*;

verus! {

/// The answer to a call that the module refuses.
pub open spec fn no(e: Error) -> DispatchResult {
    DispatchResult::Err(DispatchError::Module(e))
}

/// The answer to a call that had to be signed.
pub open spec fn unsigned() -> DispatchResult {
    DispatchResult::Err(DispatchError::BadOrigin)
}

/// Whether no record of another proposal than `id` has changed.
pub open spec fn others_stay(s: State, t: State, id: PipId) -> bool {
    forall|other: PipId| other != id ==> #[trigger] untouched(s, t, other)
}

/// Whether block, parameters, ids and the lists by block are the same.
pub open spec fn same_frame(s: State, t: State) -> bool {
    &&& t.block_number == s.block_number
    &&& t.config == s.config
    &&& t.pip_id_sequence == s.pip_id_sequence
    &&& t.proposals_maturing_at == s.proposals_maturing_at
    &&& t.scheduled_referendums_at == s.scheduled_referendums_at
}

/// Whether no record at all has changed.
pub open spec fn records_stay(s: State, t: State) -> bool {
    forall|id: PipId| #[trigger] untouched(s, t, id)
}

/// Whether exactly the effects `new` were left, in this order.
pub open spec fn leaves(s: State, t: State, new: Seq<EffectView>) -> bool {
    t.outbox == s.outbox + new
}

/// The report of an event.
pub open spec fn report(event: EventView) -> EffectView {
    EffectView::Deposit(event)
}

/// The release of each deposit that is held on the proposal `id`.
pub open spec fn release_of(s: State, id: PipId) -> EffectView {
    EffectView::Refund {
        id,
        deposits: Seq::new(s.deposits[id].len(), |i: int| s.deposits[id][i].1),
    }
}

/// Whether the list for the block `at` has become longer by `id`, and no other list has changed.
pub open spec fn appended(
    before: Map<BlockNumber, Seq<PipId>>,
    after: Map<BlockNumber, Seq<PipId>>,
    at: BlockNumber,
    id: PipId,
) -> bool {
    &&& after.contains_key(at)
    &&& after[at] == (if before.contains_key(at) {
        before[at]
    } else {
        Seq::empty()
    }).push(id)
    &&& forall|block: BlockNumber|
        block != at ==> #[trigger] after.contains_key(block) == before.contains_key(block) && (
        after.contains_key(block) ==> after[block] == before[block])
}

/// Whether the account `who` has a vote on the proposal `id`.
pub open spec fn has_voted(s: State, id: PipId, who: AccountId) -> bool {
    exists|i: int|
        0 <= i < s.proposal_votes[id].len() && (#[trigger] s.proposal_votes[id][i]).0 == who
}

/// Whether the proposal `id` was closed in the state `state`: no deposit is held on it any more,
/// and it is either removed with all that belongs to it or moved to that state and else unchanged.
pub open spec fn closed_as(s: State, t: State, id: PipId, state: ProposalState) -> bool {
    &&& !t.deposits.contains_key(id)
    &&& if s.config.prune_historical_pips {
        forgotten(t, id)
    } else {
        &&& t.proposals.contains_key(id)
        &&& t.proposals[id].state == state
        &&& t.proposals[id].proposal == s.proposals[id].proposal
        &&& t.proposals[id].id == s.proposals[id].id
        &&& same_at(s.proposal_metadata, t.proposal_metadata, id)
        &&& same_at(s.proposal_result, t.proposal_result, id)
        &&& same_at(s.proposal_votes, t.proposal_votes, id)
        &&& same_at(s.referendums, t.referendums, id)
    }
}

/// Whether the proposal `id` became a referendum of the sort `kind`. A committee of less than two
/// members has it enacted at once.
pub open spec fn promoted(
    s: State,
    t: State,
    id: PipId,
    kind: ReferendumType,
    members: u32,
) -> bool {
    let at = (s.block_number + s.config.default_enactment_period) as BlockNumber;
    &&& t.proposals.contains_key(id)
    &&& t.proposals[id].state == ProposalState::Referendum
    &&& t.referendums.contains_key(id)
    &&& t.referendums[id].id == id
    &&& t.referendums[id].referendum_type == kind
    &&& members < 2 ==> {
        &&& t.referendums[id].state == ReferendumState::Scheduled
        &&& t.referendums[id].enactment_period == at
        &&& appended(s.scheduled_referendums_at, t.scheduled_referendums_at, at, id)
    }
    &&& members >= 2 ==> {
        &&& t.referendums[id].state == ReferendumState::Pending
        &&& t.referendums[id].enactment_period == 0
        &&& t.scheduled_referendums_at == s.scheduled_referendums_at
    }
}

/// What is reported when the proposal `id` becomes a referendum.
pub open spec fn promotion_reports(
    s: State,
    id: PipId,
    kind: ReferendumType,
    members: u32,
) -> Seq<EffectView> {
    let at = (s.block_number + s.config.default_enactment_period) as BlockNumber;
    let created = seq![
        report(EventView::ProposalStateUpdated(id, ProposalState::Referendum)),
        report(EventView::ReferendumCreated(id, kind)),
    ];
    if members < 2 {
        created.push(report(EventView::ReferendumScheduled(id, 0, at)))
    } else {
        created
    }
}

/// How a call is reported that was proposed: whole up to the largest size of a report, by its hash
/// beyond.
pub open spec fn reported_as(call: Seq<u8>, limit: usize, data: ProposalDataView) -> bool {
    &&& call.len() <= limit ==> data == ProposalDataView::Proposal(call)
    &&& call.len() > limit ==> data == ProposalDataView::Hash(blake_two_256(call))
}

/// The lists of deposits that the two ways to write them down make are the same.
pub proof fn lemma_release(s: State, id: PipId)
    requires
        s.deposits.contains_key(id),
    ensures
        s.refund(id).outbox == s.outbox.push(release_of(s, id)),
{
    let listed = deposits_in(seq_at(s.deposits, id));
    assert(listed =~= Seq::new(s.deposits[id].len(), |i: int| s.deposits[id][i].1));
}

// Who may make a call, and when.

/// A parameter can be set exactly by the governance committee; who else tries is told so.
pub proof fn who_sets_parameters(origin: Origin)
    ensures
        State::committee_check(origin) == if origin.committee {
            DispatchResult::Ok(())
        } else {
            no(Error::BadOrigin)
        },
{
}

/// A member of the governance committee is let through, at any time. Of who else acts as one, each
/// is told what is missing: a signer, an identity (with the error of the search for it) or the
/// membership.
pub proof fn who_acts_as_member(origin: Origin)
    ensures
        State::member_check(origin) is Ok <==> origin.signer is Some && origin.identity is Ok
            && origin.committee_member,
        origin.signer is None ==> State::member_check(origin) == unsigned(),
        origin.signer is Some ==> (origin.identity matches Err(e) ==> State::member_check(origin)
            == DispatchResult::Err(DispatchError::Foreign(e))),
        origin.signer is Some && origin.identity is Ok && !origin.committee_member
            ==> State::member_check(origin) == no(Error::NotACommitteeMember),
{
}

/// A proposal can be made exactly by an account that offers at least the minimum deposit, and once
/// deposit and fee are paid. Nothing else, such as the block or another proposal, matters.
pub proof fn who_makes_a_proposal(s: State, origin: Origin, deposit: Balance, payment: Payment)
    ensures
        ({
            let asked = s.propose_check(origin, deposit);
            let made = s.propose_result(origin, deposit, payment);
            let offered = origin.signer is Some && deposit >= s.config.min_proposal_deposit;
            &&& asked is Ok <==> offered
            &&& made is Ok <==> offered && payment is Settled
            &&& origin.signer is None ==> asked == unsigned() && made == unsigned()
            &&& origin.signer is Some && deposit < s.config.min_proposal_deposit ==> asked == no(
                Error::InsufficientDeposit,
            ) && made == no(Error::InsufficientDeposit)
            &&& offered && payment is Declined ==> made == no(Error::InsufficientDeposit)
            &&& offered ==> (payment matches Payment::FeeRefused(e) ==> made == DispatchResult::Err(
                DispatchError::Foreign(e),
            ))
        }),
{
}

/// The owner of a pending proposal can change it at every block of the cool-off period and at no
/// other; nobody else ever can.
pub proof fn who_changes_a_proposal(s: State, origin: Origin, id: PipId)
    requires
        s.inv(),
    ensures
        ({
            let answer = s.owner_check(origin, id);
            let known = s.proposals.contains_key(id);
            let meta = s.proposal_metadata[id];
            let own = origin.signer == Some(meta.proposer);
            let open = known && s.proposals[id].state == ProposalState::Pending && s.block_number
                < meta.cool_off_until;
            &&& answer is Ok <==> known && own && open
            &&& origin.signer is None ==> answer == unsigned()
            &&& origin.signer is Some && !known ==> answer == no(Error::MismatchedProposalId)
            &&& origin.signer is Some && known && !own ==> answer == no(Error::BadOrigin)
            &&& known && own && !open ==> answer == no(Error::ProposalIsImmutable)
        }),
{
    assert(s.sound(id));
}

/// The amount that can be released of a deposit is what it exceeds the minimum deposit by.
pub proof fn what_can_be_unbonded(s: State, origin: Origin, id: PipId, amount: Balance)
    requires
        s.inv(),
    ensures
        ({
            let answer = s.unbond_result(origin, id, amount);
            let own = s.owner_check(origin, id);
            let held = s.deposits[id][0].1.amount;
            &&& own is Err ==> answer == own
            &&& own is Ok ==> answer == if amount + s.config.min_proposal_deposit <= held {
                DispatchResult::Ok(())
            } else {
                no(Error::InsufficientDeposit)
            }
        }),
{
    if s.owner_check(origin, id) is Ok {
        who_changes_a_proposal(s, origin, id);
        cool_off_has_one_voter(s, id);
        assert(s.sound(id));
    }
}

/// Whoever can change a proposal can add to its deposit, as far as it can be reserved.
pub proof fn what_can_be_bonded(s: State, origin: Origin, id: PipId, reserved: bool)
    ensures
        ({
            let answer = s.bond_result(origin, id, reserved);
            let own = s.owner_check(origin, id);
            &&& own is Err ==> answer == own
            &&& own is Ok && !reserved ==> answer == no(Error::InsufficientDeposit)
            &&& own is Ok && reserved ==> answer == DispatchResult::Ok(())
        }),
{
}

/// Any account that has not voted on a pending proposal can vote on it, for or against, with any
/// stake, at every block from the end of the cool-off period on: where the stake can be reserved
/// and the tally has room for it. No other vote is accepted, and each is told why.
pub proof fn who_votes(
    s: State,
    origin: Origin,
    id: PipId,
    aye: bool,
    deposit: Balance,
    reserved: bool,
)
    requires
        s.inv(),
    ensures
        ({
            let asked = s.vote_check(origin, id);
            let answer = s.vote_result(origin, id, aye, deposit, reserved);
            let signed = origin.signer is Some;
            let who = origin.signer->0;
            let known = s.proposals.contains_key(id);
            let cooled = s.proposal_metadata[id].cool_off_until <= s.block_number;
            let pending = known && s.proposals[id].state == ProposalState::Pending;
            let fresh = !has_voted(s, id, who);
            let tally = s.proposal_result[id];
            let counts = if aye {
                tally.ayes_count < u32::MAX
            } else {
                tally.nays_count < u32::MAX
            };
            let fits = if aye {
                tally.ayes_stake + deposit <= Balance::MAX
            } else {
                tally.nays_stake + deposit <= Balance::MAX
            };
            let open = signed && known && cooled && pending && fresh;
            &&& asked is Ok <==> open
            &&& answer is Ok <==> open && reserved && counts && fits
            &&& asked is Err ==> answer == asked
            &&& !signed ==> asked == unsigned()
            &&& signed && !known ==> asked == no(Error::MismatchedProposalId)
            &&& signed && known && !cooled ==> asked == no(Error::ProposalOnCoolOffPeriod)
            &&& signed && known && cooled && !pending ==> asked == no(Error::ProposalIsImmutable)
            &&& signed && known && cooled && pending && !fresh ==> asked == no(Error::DuplicateVote)
            &&& open && !reserved ==> answer == no(Error::InsufficientDeposit)
            &&& open && reserved && !counts ==> answer == no(Error::NumberOfVotesExceeded)
            &&& open && reserved && counts && !fits ==> answer == no(
                Error::StakeAmountOfVotesExceeded,
            )
        }),
{
    assert(s.sound(id));
    if s.pending(id) && origin.signer is Some {
        let who = origin.signer->0;
        let votes = s.proposal_votes[id];
        lemma_lookup_none(votes, who);
        if has_voted(s, id, who) {
            let i = choose|i: int| 0 <= i < votes.len() && (#[trigger] votes[i]).0 == who;
            lemma_lookup_entry(votes, i);
            assert(s.deposits[id][i].0 == votes[i].0);
        }
    }
}

/// The governance committee can kill any pending proposal, at any block; nobody else can, and no
/// other proposal can be killed.
pub proof fn who_kills_a_proposal(s: State, origin: Origin, id: PipId)
    ensures
        ({
            let answer = s.kill_result(origin, id);
            let known = s.proposals.contains_key(id);
            let pending = known && s.proposals[id].state == ProposalState::Pending;
            &&& answer is Ok <==> origin.committee && pending
            &&& !origin.committee ==> answer == no(Error::BadOrigin)
            &&& origin.committee && !known ==> answer == no(Error::NoSuchProposal)
            &&& origin.committee && known && !pending ==> answer == no(Error::ProposalIsImmutable)
        }),
{
}

/// A member of the governance committee can fast-track any pending proposal, at any block, in its
/// cool-off period or after; nobody else can, and no other proposal can be fast-tracked.
pub proof fn who_fast_tracks_a_proposal(s: State, origin: Origin, id: PipId)
    ensures
        ({
            let answer = s.fast_track_result(origin, id);
            let member = origin.signer is Some && origin.identity is Ok && origin.committee_member;
            let known = s.proposals.contains_key(id);
            let pending = known && s.proposals[id].state == ProposalState::Pending;
            &&& answer is Ok <==> member && pending
            &&& !member ==> answer == State::member_check(origin)
            &&& member && !known ==> answer == no(Error::MismatchedProposalId)
            &&& member && known && !pending ==> answer == no(Error::ProposalIsImmutable)
        }),
{
}

/// A voting majority can enact or reject any pending referendum, at any block; nobody else can, and
/// no other referendum can be decided.
pub proof fn who_decides_a_referendum(s: State, origin: Origin, id: PipId)
    ensures
        ({
            let answer = s.ratify_result(origin, id);
            let known = s.referendums.contains_key(id);
            let pending = known && s.referendums[id].state == ReferendumState::Pending;
            &&& answer is Ok <==> origin.voting_majority && pending
            &&& !origin.voting_majority ==> answer == no(Error::BadOrigin)
            &&& origin.voting_majority && !known ==> answer == no(Error::MismatchedProposalId)
            &&& origin.voting_majority && known && !pending ==> answer == no(
                Error::ReferendumIsImmutable,
            )
        }),
{
}

/// The release coordinator can move any scheduled referendum to any later block; where none is
/// named, to the next one. Nobody else can, no other referendum can be moved, and none can be moved
/// to the current block or an earlier one.
pub proof fn who_reschedules_a_referendum(
    s: State,
    origin: Origin,
    id: PipId,
    until: Option<BlockNumber>,
    coordinator: Option<IdentityId>,
)
    ensures
        ({
            let answer = s.reschedule_result(origin, id, until, coordinator);
            let named = origin.signer is Some && origin.identity is Ok;
            let entitled = named && coordinator == Some(origin.identity->Ok_0);
            let future = until is None || until->0 > s.block_number;
            let known = s.referendums.contains_key(id);
            let scheduled = known && s.referendums[id].state == ReferendumState::Scheduled;
            &&& State::coordinator_check(origin, coordinator) is Ok <==> entitled
            &&& answer is Ok <==> entitled && future && scheduled
            &&& origin.signer is None ==> answer == unsigned()
            &&& origin.signer is Some ==> (origin.identity matches Err(e) ==> answer
                == DispatchResult::Err(DispatchError::Foreign(e)))
            &&& named && !entitled ==> answer == no(Error::BadOrigin)
            &&& entitled && !future ==> answer == no(Error::InvalidFutureBlockNumber)
            &&& entitled && future && !known ==> answer == no(Error::MismatchedProposalId)
            &&& entitled && future && known && !scheduled ==> answer == no(
                Error::ReferendumIsImmutable,
            )
            &&& s.reschedule_to(until) == match until {
                Some(block) => block as int,
                None => s.block_number + 1,
            }
        }),
{
}

// Proposals.

/// A proposal is kept as it was handed in: call, url, description and beneficiaries, under the next
/// id. Its cool-off period begins at the block at which it is made, its ballot when that is over.
/// Its owner's deposit is the first vote for it. All this is reported, and nothing else changes.
pub proof fn a_proposal_is_kept_as_handed_in(
    s: State,
    who: AccountId,
    call: Seq<u8>,
    deposit: Balance,
    url: Option<Seq<u8>>,
    description: Option<Seq<u8>>,
    beneficiaries: Seq<Beneficiary<Balance>>,
)
    requires
        s.proposal_fits(),
    ensures
        ({
            let t = s.propose(who, call, deposit, url, description, beneficiaries);
            let id = s.pip_id_sequence;
            let meta = t.proposal_metadata[id];
            let tally = t.proposal_result[id];
            &&& t.proposals.contains_key(id)
            &&& t.proposals[id].id == id
            &&& t.proposals[id].proposal == call
            &&& t.proposals[id].state == ProposalState::Pending
            &&& t.proposal_metadata.contains_key(id)
            &&& meta.proposer == who
            &&& meta.id == id
            &&& meta.url == url
            &&& meta.description == description
            &&& meta.beneficiaries == beneficiaries
            &&& meta.cool_off_until == s.block_number + s.config.proposal_cool_off_period
            &&& meta.end == meta.cool_off_until + s.config.proposal_duration
            &&& t.deposits.contains_key(id)
            &&& t.deposits[id] == seq![(who, DepositInfo { owner: who, amount: deposit })]
            &&& t.proposal_votes.contains_key(id)
            &&& t.proposal_votes[id] == seq![(who, Vote::Yes(deposit))]
            &&& t.proposal_result.contains_key(id)
            &&& (tally.ayes_count, tally.ayes_stake, tally.nays_count, tally.nays_stake) == (
                1u32,
                deposit,
                0u32,
                0u128,
            )
            &&& t.pip_id_sequence == id + 1
            &&& appended(s.proposals_maturing_at, t.proposals_maturing_at, meta.end, id)
            &&& t.referendums == s.referendums
            &&& t.scheduled_referendums_at == s.scheduled_referendums_at
            &&& t.block_number == s.block_number
            &&& t.config == s.config
            &&& others_stay(s, t, id)
            &&& exists|data: ProposalDataView| #[trigger]
                reported_as(call, s.config.max_reporting_size, data) && leaves(
                    s,
                    t,
                    seq![
                        report(
                            EventView::ProposalCreated(
                                who,
                                id,
                                deposit,
                                url,
                                description,
                                meta.cool_off_until,
                                meta.end,
                                data,
                            ),
                        ),
                    ],
                )
        }),
{
    let t = s.propose(who, call, deposit, url, description, beneficiaries);
    let data = reported(call, s.config.max_reporting_size);
    assert(reported_as(call, s.config.max_reporting_size, data));
    assert(t.outbox =~= s.outbox + seq![t.outbox.last()]);
}

/// After a proposal is made, at any later block and unless something else is done about it: for the
/// length of the cool-off period its owner can change it and nobody can vote on it; from the first
/// block after it on, nobody can change it and everybody can vote on it, the owner excepted, who
/// has voted by making it. Somebody else can never change it.
pub proof fn a_new_proposal_cools_off_first(
    s: State,
    who: AccountId,
    call: Seq<u8>,
    deposit: Balance,
    url: Option<Seq<u8>>,
    description: Option<Seq<u8>>,
    beneficiaries: Seq<Beneficiary<Balance>>,
    later: BlockNumber,
    origin: Origin,
)
    requires
        s.inv(),
        s.proposal_fits(),
        s.block_number <= later,
        origin.signer is Some,
    ensures
        ({
            let id = s.pip_id_sequence;
            let t = s.propose(who, call, deposit, url, description, beneficiaries).begin_block(
                later,
            );
            let cooling = later < s.block_number + s.config.proposal_cool_off_period;
            let owner = origin.signer == Some(who);
            &&& owner ==> t.owner_check(origin, id) == if cooling {
                DispatchResult::Ok(())
            } else {
                no(Error::ProposalIsImmutable)
            }
            &&& !owner ==> t.owner_check(origin, id) == no(Error::BadOrigin)
            &&& cooling ==> t.vote_check(origin, id) == no(Error::ProposalOnCoolOffPeriod)
            &&& !cooling && owner ==> t.vote_check(origin, id) == no(Error::DuplicateVote)
            &&& !cooling && !owner ==> t.vote_check(origin, id) == DispatchResult::Ok(())
        }),
{
    let id = s.pip_id_sequence;
    let made = s.propose(who, call, deposit, url, description, beneficiaries);
    let t = made.begin_block(later);
    propose_keeps_inv(s, who, call, deposit, url, description, beneficiaries);
    begin_block_keeps_inv(made, later);
    who_changes_a_proposal(t, origin, id);
    who_votes(t, origin, id, true, 0, true);
    assert(t.proposal_votes[id] =~= seq![(who, Vote::Yes(deposit))]);
    assert(t.proposal_votes[id][0].0 == who);
}

/// Amending a proposal gives it the url and the description that are handed in, and changes nothing
/// else about it.
pub proof fn an_amendment_is_of_url_and_description(
    s: State,
    who: AccountId,
    id: PipId,
    url: Option<Seq<u8>>,
    description: Option<Seq<u8>>,
)
    requires
        s.proposal_metadata.contains_key(id),
    ensures
        ({
            let t = s.amend(who, id, url, description);
            let (before, now) = (s.proposal_metadata[id], t.proposal_metadata[id]);
            &&& t.proposal_metadata.contains_key(id)
            &&& now.url == url
            &&& now.description == description
            &&& now.proposer == before.proposer
            &&& now.id == before.id
            &&& now.end == before.end
            &&& now.cool_off_until == before.cool_off_until
            &&& now.beneficiaries == before.beneficiaries
            &&& same_at(s.proposals, t.proposals, id)
            &&& same_at(s.deposits, t.deposits, id)
            &&& same_at(s.proposal_result, t.proposal_result, id)
            &&& same_at(s.proposal_votes, t.proposal_votes, id)
            &&& same_at(s.referendums, t.referendums, id)
            &&& same_frame(s, t)
            &&& others_stay(s, t, id)
            &&& leaves(s, t, seq![report(EventView::ProposalAmended(who, id, true, 0))])
        }),
{
    let t = s.amend(who, id, url, description);
    assert(t.outbox =~= s.outbox + seq![
        report(EventView::ProposalAmended(who, id, true, 0)),
    ]);
}

/// A proposal that is cancelled or killed is closed in the state that says so; before that is
/// reported, all deposits on it are released. Nothing else changes.
pub proof fn a_withdrawn_proposal_is_closed(s: State, id: PipId)
    requires
        s.inv(),
        s.pending(id),
    ensures
        ({
            let (c, k) = (s.cancel(id), s.kill(id));
            let pruned = s.config.prune_historical_pips;
            &&& closed_as(s, c, id, ProposalState::Cancelled)
            &&& same_frame(s, c)
            &&& others_stay(s, c, id)
            &&& leaves(
                s,
                c,
                seq![
                    release_of(s, id),
                    report(EventView::ProposalStateUpdated(id, ProposalState::Cancelled)),
                    report(EventView::PipClosed(id, pruned)),
                ],
            )
            &&& closed_as(s, k, id, ProposalState::Killed)
            &&& same_frame(s, k)
            &&& others_stay(s, k, id)
            &&& leaves(
                s,
                k,
                seq![
                    release_of(s, id),
                    report(EventView::ProposalStateUpdated(id, ProposalState::Killed)),
                    report(EventView::PipClosed(id, pruned)),
                ],
            )
        }),
{
    assert(s.sound(id));
    lemma_release(s, id);
    let pruned = s.config.prune_historical_pips;
    assert(s.cancel(id).outbox =~= s.outbox + seq![
        release_of(s, id),
        report(EventView::ProposalStateUpdated(id, ProposalState::Cancelled)),
        report(EventView::PipClosed(id, pruned)),
    ]);
    assert(s.kill(id).outbox =~= s.outbox + seq![
        release_of(s, id),
        report(EventView::ProposalStateUpdated(id, ProposalState::Killed)),
        report(EventView::PipClosed(id, pruned)),
    ]);
}

/// Adding to a deposit, or releasing a part of it, changes the amount of the owner's deposit and
/// vote and of the stake for the proposal, all to the same sum, and nothing else. What is added is
/// the amount asked for, up to the largest balance; what is released is released for the owner.
pub proof fn bonding_moves_deposit_vote_and_stake(
    s: State,
    origin: Origin,
    id: PipId,
    additional: Balance,
    amount: Balance,
)
    requires
        s.inv(),
        s.owner_check(origin, id) is Ok,
    ensures
        ({
            let who = origin.signer->0;
            let held = s.deposits[id][0].1.amount;
            let t = s.bond(who, id, additional);
            let sum = if held + additional <= Balance::MAX {
                (held + additional) as Balance
            } else {
                Balance::MAX
            };
            let added = (sum - held) as Balance;
            &&& s.bond_amount(who, id, additional) == added
            &&& redeposited(s, t, who, id, sum)
            &&& leaves(s, t, seq![report(EventView::ProposalAmended(who, id, true, added))])
        }),
        s.unbond_result(origin, id, amount) is Ok ==> ({
            let who = origin.signer->0;
            let held = s.deposits[id][0].1.amount;
            let t = s.unbond(who, id, amount);
            &&& amount <= held
            &&& redeposited(s, t, who, id, (held - amount) as Balance)
            &&& leaves(
                s,
                t,
                seq![
                    EffectView::Unreserve { who, amount },
                    report(EventView::ProposalAmended(who, id, false, amount)),
                ],
            )
        }),
{
    let who = origin.signer->0;
    who_changes_a_proposal(s, origin, id);
    cool_off_has_one_voter(s, id);
    assert(s.sound(id));
    assert(s.deposits[id][0].0 == who);
    assert(s.proposal_votes[id][0].0 == who);
    let t = s.bond(who, id, additional);
    let sum = (s.deposit_of(id, who) + s.bond_amount(who, id, additional)) as Balance;
    assert(t.deposits[id] =~= seq![(who, DepositInfo { owner: who, amount: sum })]);
    assert(t.proposal_votes[id] =~= seq![(who, Vote::Yes(sum))]);
    let added = s.bond_amount(who, id, additional);
    assert(t.outbox =~= s.outbox + seq![
        report(EventView::ProposalAmended(who, id, true, added)),
    ]);
    if s.unbond_result(origin, id, amount) is Ok {
        what_can_be_unbonded(s, origin, id, amount);
        let u = s.unbond(who, id, amount);
        let rest = (s.deposit_of(id, who) - amount) as Balance;
        assert(u.deposits[id] =~= seq![(who, DepositInfo { owner: who, amount: rest })]);
        assert(u.proposal_votes[id] =~= seq![(who, Vote::Yes(rest))]);
        assert(u.outbox =~= s.outbox + seq![
            EffectView::Unreserve { who, amount },
            report(EventView::ProposalAmended(who, id, false, amount)),
        ]);
    }
}

/// Whether the owner `who` of the proposal `id` has come to hold a deposit and a vote of `sum`, and
/// nothing else has changed.
pub open spec fn redeposited(
    s: State,
    t: State,
    who: AccountId,
    id: PipId,
    sum: Balance,
) -> bool {
    &&& t.deposits.contains_key(id)
    &&& t.deposits[id] == seq![(who, DepositInfo { owner: who, amount: sum })]
    &&& t.proposal_votes.contains_key(id)
    &&& t.proposal_votes[id] == seq![(who, Vote::Yes(sum))]
    &&& t.proposal_result.contains_key(id)
    &&& t.proposal_result[id].ayes_stake == sum
    &&& t.proposal_result[id].ayes_count == s.proposal_result[id].ayes_count
    &&& t.proposal_result[id].nays_stake == s.proposal_result[id].nays_stake
    &&& t.proposal_result[id].nays_count == s.proposal_result[id].nays_count
    &&& same_at(s.proposals, t.proposals, id)
    &&& same_at(s.proposal_metadata, t.proposal_metadata, id)
    &&& same_at(s.referendums, t.referendums, id)
    &&& same_frame(s, t)
    &&& others_stay(s, t, id)
}

/// A vote that is accepted comes after those before it, with a deposit as large as its stake, and
/// adds one voter and the stake to its side of the tally, and nothing to the other. A vote that the
/// tally has no room for changes no record, and has its deposit released. Any other vote that is
/// refused changes nothing.
pub proof fn a_vote_adds_to_its_side(
    s: State,
    origin: Origin,
    id: PipId,
    aye: bool,
    deposit: Balance,
    reserved: bool,
)
    requires
        s.inv(),
    ensures
        ({
            let t = s.vote(origin, id, aye, deposit, reserved);
            let answer = s.vote_result(origin, id, aye, deposit, reserved);
            let who = origin.signer->0;
            let (before, now) = (s.proposal_result[id], t.proposal_result[id]);
            let (more_ayes, more_nays) = if aye {
                (1int, 0int)
            } else {
                (0int, 1int)
            };
            &&& answer is Ok ==> {
                &&& t.proposal_votes.contains_key(id)
                &&& t.proposal_votes[id] == s.proposal_votes[id].push(
                    (
                        who,
                        if aye {
                            Vote::Yes(deposit)
                        } else {
                            Vote::No(deposit)
                        },
                    ),
                )
                &&& t.deposits.contains_key(id)
                &&& t.deposits[id] == s.deposits[id].push(
                    (who, DepositInfo { owner: who, amount: deposit }),
                )
                &&& t.proposal_result.contains_key(id)
                &&& now.ayes_count == before.ayes_count + more_ayes
                &&& now.nays_count == before.nays_count + more_nays
                &&& now.ayes_stake == before.ayes_stake + (if aye {
                    deposit
                } else {
                    0
                })
                &&& now.nays_stake == before.nays_stake + (if aye {
                    0
                } else {
                    deposit
                })
                &&& same_at(s.proposals, t.proposals, id)
                &&& same_at(s.proposal_metadata, t.proposal_metadata, id)
                &&& same_at(s.referendums, t.referendums, id)
                &&& same_frame(s, t)
                &&& others_stay(s, t, id)
                &&& leaves(s, t, seq![report(EventView::Voted(who, id, aye, deposit))])
            }
            &&& answer is Err && s.vote_check(origin, id) is Ok && reserved ==> {
                &&& records_stay(s, t)
                &&& same_frame(s, t)
                &&& leaves(s, t, seq![EffectView::Unreserve { who, amount: deposit }])
            }
            &&& s.vote_check(origin, id) is Err || !reserved ==> t == s
        }),
{
    let t = s.vote(origin, id, aye, deposit, reserved);
    let who = origin.signer->0;
    who_votes(s, origin, id, aye, deposit, reserved);
    if s.vote_result(origin, id, aye, deposit, reserved) is Ok {
        assert(s.sound(id));
        let (votes, deposits) = (s.proposal_votes[id], s.deposits[id]);
        assert(!filed(votes, who)) by {
            if filed(votes, who) {
                let i = choose|i: int| 0 <= i < votes.len() && (#[trigger] votes[i]).0 == who;
                assert(has_voted(s, id, who));
            }
        }
        assert(!filed(deposits, who)) by {
            if filed(deposits, who) {
                let i = choose|i: int| 0 <= i < deposits.len() && (#[trigger] deposits[i]).0
                    == who;
                assert(votes[i].0 == who);
                assert(has_voted(s, id, who));
            }
        }
        assert(t.outbox =~= s.outbox + seq![report(EventView::Voted(who, id, aye, deposit))]);
    } else if s.vote_check(origin, id) is Ok && reserved {
        assert(t.outbox =~= s.outbox + seq![EffectView::Unreserve { who, amount: deposit }]);
    }
}

// Referendums.

/// A proposal that is fast-tracked becomes a referendum of this sort, with the same call, metadata,
/// votes and tally; its deposits are released. Nothing else changes.
pub proof fn a_fast_tracked_proposal_is_a_referendum(s: State, id: PipId, members: u32)
    requires
        s.inv(),
        s.pending(id),
    ensures
        ({
            let t = s.fast_track(id, members);
            &&& promoted(s, t, id, ReferendumType::FastTracked, members)
            &&& promoted_as_it_was(s, t, id)
            &&& leaves(
                s,
                t,
                promotion_reports(s, id, ReferendumType::FastTracked, members).push(
                    release_of(s, id),
                ),
            )
        }),
{
    assert(s.sound(id));
    let t = s.fast_track(id, members);
    let r = s.create_referendum(id, ReferendumType::FastTracked, members);
    lemma_release(r, id);
    assert(release_of(r, id) == release_of(s, id));
    assert(t.outbox =~= s.outbox + promotion_reports(
        s,
        id,
        ReferendumType::FastTracked,
        members,
    ).push(release_of(s, id)));
}

/// Whether a proposal that became a referendum kept its call, metadata, votes and tally and lost
/// its deposits, and nothing else has changed but the schedule.
pub open spec fn promoted_as_it_was(s: State, t: State, id: PipId) -> bool {
    &&& t.proposals[id].proposal == s.proposals[id].proposal
    &&& t.proposals[id].id == s.proposals[id].id
    &&& !t.deposits.contains_key(id)
    &&& same_at(s.proposal_metadata, t.proposal_metadata, id)
    &&& same_at(s.proposal_result, t.proposal_result, id)
    &&& same_at(s.proposal_votes, t.proposal_votes, id)
    &&& t.block_number == s.block_number
    &&& t.config == s.config
    &&& t.pip_id_sequence == s.pip_id_sequence
    &&& t.proposals_maturing_at == s.proposals_maturing_at
    &&& others_stay(s, t, id)
}

/// An emergency referendum is kept as it was handed in: call, url, description and beneficiaries,
/// under the next id. It is at the referendum stage at once, so that its execution is to dispatch
/// the call that was handed in; it has no ballot, no votes and no deposits. Nothing else changes.
pub proof fn an_emergency_referendum_is_kept_as_handed_in(
    s: State,
    who: AccountId,
    call: Seq<u8>,
    url: Option<Seq<u8>>,
    description: Option<Seq<u8>>,
    beneficiaries: Seq<Beneficiary<Balance>>,
    members: u32,
)
    requires
        s.inv(),
        s.pip_id_sequence < u32::MAX,
    ensures
        ({
            let t = s.emergency(who, call, url, description, beneficiaries, members);
            let id = s.pip_id_sequence;
            let meta = t.proposal_metadata[id];
            &&& promoted(s, t, id, ReferendumType::Emergency, members)
            &&& t.proposals[id].proposal == call
            &&& t.proposals[id].id == id
            &&& t.proposal_metadata.contains_key(id)
            &&& meta.proposer == who
            &&& meta.id == id
            &&& meta.url == url
            &&& meta.description == description
            &&& meta.beneficiaries == beneficiaries
            &&& meta.cool_off_until == 0
            &&& meta.end == 0
            &&& !t.deposits.contains_key(id)
            &&& !t.proposal_votes.contains_key(id)
            &&& !t.proposal_result.contains_key(id)
            &&& t.pip_id_sequence == id + 1
            &&& t.proposals_maturing_at == s.proposals_maturing_at
            &&& t.block_number == s.block_number
            &&& t.config == s.config
            &&& others_stay(s, t, id)
            &&& exists|data: ProposalDataView| #[trigger]
                reported_as(call, s.config.max_reporting_size, data) && leaves(
                    s,
                    t,
                    seq![
                        report(
                            EventView::ProposalCreated(who, id, 0, url, description, 0, 0, data),
                        ),
                    ] + promotion_reports(s, id, ReferendumType::Emergency, members),
                )
        }),
{
    let t = s.emergency(who, call, url, description, beneficiaries, members);
    let id = s.pip_id_sequence;
    assert(s.sound(id));
    let data = reported(call, s.config.max_reporting_size);
    assert(reported_as(call, s.config.max_reporting_size, data));
    assert(t.outbox =~= s.outbox + (seq![
        report(EventView::ProposalCreated(who, id, 0, url, description, 0, 0, data)),
    ] + promotion_reports(s, id, ReferendumType::Emergency, members)));
}

/// A referendum that is enacted is scheduled for the block at which the default enactment period,
/// counted from now, ends, behind those that are scheduled for it already. Nothing else changes.
pub proof fn an_enacted_referendum_waits(s: State, id: PipId)
    requires
        s.referendums.contains_key(id),
        s.enactment_fits(),
    ensures
        ({
            let t = s.schedule(id);
            let at = (s.block_number + s.config.default_enactment_period) as BlockNumber;
            let (before, now) = (s.referendums[id], t.referendums[id]);
            &&& at == s.block_number + s.config.default_enactment_period
            &&& t.referendums.contains_key(id)
            &&& now.state == ReferendumState::Scheduled
            &&& now.enactment_period == at
            &&& now.id == before.id
            &&& now.referendum_type == before.referendum_type
            &&& appended(s.scheduled_referendums_at, t.scheduled_referendums_at, at, id)
            &&& only_the_referendum_changed(s, t, id)
            &&& leaves(s, t, seq![report(EventView::ReferendumScheduled(id, 0, at))])
        }),
{
    let t = s.schedule(id);
    let at = (s.block_number + s.config.default_enactment_period) as BlockNumber;
    assert(t.outbox =~= s.outbox + seq![report(EventView::ReferendumScheduled(id, 0, at))]);
}

/// Whether of all records only the referendum `id` has changed, and besides it the schedule.
pub open spec fn only_the_referendum_changed(s: State, t: State, id: PipId) -> bool {
    &&& same_at(s.proposals, t.proposals, id)
    &&& same_at(s.proposal_metadata, t.proposal_metadata, id)
    &&& same_at(s.deposits, t.deposits, id)
    &&& same_at(s.proposal_result, t.proposal_result, id)
    &&& same_at(s.proposal_votes, t.proposal_votes, id)
    &&& t.block_number == s.block_number
    &&& t.config == s.config
    &&& t.pip_id_sequence == s.pip_id_sequence
    &&& t.proposals_maturing_at == s.proposals_maturing_at
    &&& others_stay(s, t, id)
}

/// A referendum that is rejected is closed in this state; its proposal stays at the referendum
/// stage, or is removed with all that belongs to it. Nothing else changes.
pub proof fn a_rejected_referendum_is_closed(s: State, id: PipId)
    requires
        s.inv(),
        s.referendums.contains_key(id),
    ensures
        ({
            let t = s.reject(id);
            &&& finished_as(s, t, id, ReferendumState::Rejected)
            &&& leaves(
                s,
                t,
                seq![
                    report(EventView::ReferendumStateUpdated(id, ReferendumState::Rejected)),
                    report(EventView::PipClosed(id, s.config.prune_historical_pips)),
                ],
            )
        }),
{
    assert(s.sound(id));
    assert(s.reject(id).outbox =~= s.outbox + seq![
        report(EventView::ReferendumStateUpdated(id, ReferendumState::Rejected)),
        report(EventView::PipClosed(id, s.config.prune_historical_pips)),
    ]);
}

/// Whether the referendum `id` was closed in the state `state`: it is either removed with all that
/// belongs to it, or moved to that state and else unchanged. Nothing else has changed.
pub open spec fn finished_as(s: State, t: State, id: PipId, state: ReferendumState) -> bool {
    &&& same_frame(s, t)
    &&& others_stay(s, t, id)
    &&& if s.config.prune_historical_pips {
        forgotten(t, id)
    } else {
        &&& t.referendums.contains_key(id)
        &&& t.referendums[id].state == state
        &&& t.referendums[id].id == s.referendums[id].id
        &&& t.referendums[id].referendum_type == s.referendums[id].referendum_type
        &&& t.referendums[id].enactment_period == s.referendums[id].enactment_period
        &&& only_the_referendum_changed(s, t, id)
    }
}

/// A referendum is executed or failed exactly as the dispatch of its call succeeded or failed,
/// whoever is to be paid; that is reported. Only on success each beneficiary is paid what was
/// promised, in order. Either way the proposal is closed. Nothing else changes.
pub proof fn an_execution_is_recorded_as_it_went(s: State, id: PipId, success: bool)
    requires
        s.inv(),
        s.in_state(id, ProposalState::Referendum),
    ensures
        ({
            let t = s.complete(id, success);
            let state = if success {
                ReferendumState::Executed
            } else {
                ReferendumState::Failed
            };
            let payees = s.proposal_metadata[id].beneficiaries;
            let paid = Seq::new(
                payees.len(),
                |i: int| EffectView::Disburse { to: payees[i].id, amount: payees[i].amount },
            );
            &&& finished_as(s, t, id, state)
            &&& leaves(
                s,
                t,
                seq![report(EventView::ReferendumStateUpdated(id, state))] + (if success {
                    paid
                } else {
                    Seq::empty()
                }) + seq![report(EventView::PipClosed(id, s.config.prune_historical_pips))],
            )
        }),
{
    assert(s.sound(id));
    let t = s.complete(id, success);
    let state = if success {
        ReferendumState::Executed
    } else {
        ReferendumState::Failed
    };
    let payees = s.proposal_metadata[id].beneficiaries;
    let paid = Seq::new(
        payees.len(),
        |i: int| EffectView::Disburse { to: payees[i].id, amount: payees[i].amount },
    );
    let owed = payments_to(payees);
    assert(owed =~= paid);
    let closing = seq![report(EventView::PipClosed(id, s.config.prune_historical_pips))];
    let opening = seq![report(EventView::ReferendumStateUpdated(id, state))];
    if success {
        assert(t.outbox =~= s.outbox + (opening + paid + closing));
    } else {
        assert(t.outbox =~= s.outbox + (opening + Seq::empty() + closing));
    }
}

/// A referendum that is rescheduled waits for its new block, behind those that wait for it already,
/// and no longer for its old one, where the others stay in their order. Nothing else changes.
pub proof fn a_rescheduled_referendum_moves(
    s: State,
    id: PipId,
    until: BlockNumber,
    ahead: Seq<PipId>,
    behind: Seq<PipId>,
)
    requires
        s.referendums.contains_key(id),
        s.scheduled_referendums_at.contains_key(s.referendums[id].enactment_period),
        s.scheduled_referendums_at[s.referendums[id].enactment_period] == ahead + seq![id]
            + behind,
        !ahead.contains(id),
        !behind.contains(id),
    ensures
        ({
            let t = s.reschedule(id, until);
            let old_block = s.referendums[id].enactment_period;
            let (before, now) = (s.referendums[id], t.referendums[id]);
            let (lists, rest) = (s.scheduled_referendums_at, t.scheduled_referendums_at);
            &&& t.referendums.contains_key(id)
            &&& now.enactment_period == until
            &&& now.state == before.state
            &&& now.id == before.id
            &&& now.referendum_type == before.referendum_type
            &&& until == old_block ==> seq_at(rest, until) == (ahead + behind).push(id)
            &&& until != old_block ==> seq_at(rest, old_block) == ahead + behind && seq_at(
                rest,
                until,
            ) == seq_at(lists, until).push(id)
            &&& forall|block: BlockNumber|
                block != old_block && block != until ==> #[trigger] seq_at(rest, block) == seq_at(
                    lists,
                    block,
                )
            &&& only_the_referendum_changed(s, t, id)
            &&& leaves(
                s,
                t,
                seq![report(EventView::ReferendumScheduled(id, old_block, until))],
            )
        }),
{
    let t = s.reschedule(id, until);
    let old_block = s.referendums[id].enactment_period;
    lemma_filter_one(ahead, behind, id);
    assert(t.outbox =~= s.outbox + seq![
        report(EventView::ReferendumScheduled(id, old_block, until)),
    ]);
}

/// A referendum that is rescheduled while it is not on the list for its old block, because it was
/// handed out there, waits for its new block all the same; no list loses anything.
pub proof fn a_running_referendum_can_be_rescheduled(s: State, id: PipId, until: BlockNumber)
    requires
        s.referendums.contains_key(id),
        !seq_at(s.scheduled_referendums_at, s.referendums[id].enactment_period).contains(id),
    ensures
        ({
            let t = s.reschedule(id, until);
            let old_block = s.referendums[id].enactment_period;
            let (before, now) = (s.referendums[id], t.referendums[id]);
            let (lists, rest) = (s.scheduled_referendums_at, t.scheduled_referendums_at);
            &&& t.referendums.contains_key(id)
            &&& now.enactment_period == until
            &&& now.state == before.state
            &&& now.id == before.id
            &&& now.referendum_type == before.referendum_type
            &&& seq_at(rest, until) == seq_at(lists, until).push(id)
            &&& forall|block: BlockNumber|
                block != until ==> #[trigger] seq_at(rest, block) == seq_at(lists, block)
            &&& only_the_referendum_changed(s, t, id)
            &&& leaves(
                s,
                t,
                seq![report(EventView::ReferendumScheduled(id, old_block, until))],
            )
        }),
{
    let t = s.reschedule(id, until);
    let old_block = s.referendums[id].enactment_period;
    lemma_filter_none(seq_at(s.scheduled_referendums_at, old_block), id);
    assert(t.outbox =~= s.outbox + seq![
        report(EventView::ReferendumScheduled(id, old_block, until)),
    ]);
}

/// Closing a proposal releases what deposits are still held on it, and then reports whether its
/// data is removed. It is, with all that belongs to it, exactly if historical data is pruned; else
/// all but the deposits stays. Nothing else changes.
pub proof fn a_closed_proposal_is_kept_or_removed(s: State, id: PipId)
    ensures
        ({
            let t = s.prune(id);
            let pruned = s.config.prune_historical_pips;
            let closing = seq![report(EventView::PipClosed(id, pruned))];
            &&& !t.deposits.contains_key(id)
            &&& pruned ==> forgotten(t, id)
            &&& !pruned ==> {
                &&& same_at(s.proposals, t.proposals, id)
                &&& same_at(s.proposal_metadata, t.proposal_metadata, id)
                &&& same_at(s.proposal_result, t.proposal_result, id)
                &&& same_at(s.proposal_votes, t.proposal_votes, id)
                &&& same_at(s.referendums, t.referendums, id)
            }
            &&& same_frame(s, t)
            &&& others_stay(s, t, id)
            &&& s.deposits.contains_key(id) ==> leaves(s, t, seq![release_of(s, id)] + closing)
            &&& !s.deposits.contains_key(id) ==> leaves(s, t, closing)
        }),
{
    let t = s.prune(id);
    let closing = seq![report(EventView::PipClosed(id, s.config.prune_historical_pips))];
    if s.deposits.contains_key(id) {
        lemma_release(s, id);
        assert(t.outbox =~= s.outbox + (seq![release_of(s, id)] + closing));
    } else {
        assert(t.outbox =~= s.outbox + closing);
    }
}

/// Leaving out an id that is on no list leaves the list.
proof fn lemma_filter_none(list: Seq<PipId>, id: PipId)
    requires
        !list.contains(id),
    ensures
        list.filter(other_than(id)) == list,
    decreases list.len(),
{
    reveal(Seq::filter);
    if list.len() > 0 {
        let rest = list.drop_last();
        assert(list[list.len() - 1] != id);
        assert(!rest.contains(id)) by {
            if rest.contains(id) {
                let k = choose|k: int| 0 <= k < rest.len() && rest[k] == id;
                assert(list[k] == id);
            }
        }
        lemma_filter_none(rest, id);
        assert(list =~= rest.push(list.last()));
    }
}

/// Leaving out an id that is on a list once leaves what is ahead of it and behind it.
proof fn lemma_filter_one(ahead: Seq<PipId>, behind: Seq<PipId>, id: PipId)
    requires
        !ahead.contains(id),
        !behind.contains(id),
    ensures
        (ahead + seq![id] + behind).filter(other_than(id)) == ahead + behind,
    decreases behind.len(),
{
    reveal(Seq::filter);
    let all = ahead + seq![id] + behind;
    if behind.len() == 0 {
        assert(all.drop_last() =~= ahead);
        lemma_filter_none(ahead, id);
        assert(ahead + behind =~= ahead);
    } else {
        let rest = behind.drop_last();
        assert(behind[behind.len() - 1] != id);
        assert(!rest.contains(id)) by {
            if rest.contains(id) {
                let k = choose|k: int| 0 <= k < rest.len() && rest[k] == id;
                assert(behind[k] == id);
            }
        }
        assert(all.drop_last() =~= ahead + seq![id] + rest);
        lemma_filter_one(ahead, rest, id);
        assert((ahead + rest).push(behind.last()) =~= ahead + behind);
    }
}

} // verus!
