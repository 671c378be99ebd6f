//! The tally of the votes on a proposal.
use crate::types::{AccountId, Balance, Error, Vote, VotingResult};
use vstd::prelude::*;

verus! {

/// The votes cast on a proposal, each with the account that cast it.
pub type Ballots = Seq<(AccountId, Vote<Balance>)>;

/// The number of votes for the proposal.
pub open spec fn ayes(b: Ballots) -> nat
    decreases b.len(),
{
    if b.len() == 0 {
        0
    } else {
        ayes(b.drop_last()) + (if b.last().1 is Yes {
            1nat
        } else {
            0nat
        })
    }
}

/// The number of votes against the proposal.
pub open spec fn nays(b: Ballots) -> nat
    decreases b.len(),
{
    if b.len() == 0 {
        0
    } else {
        nays(b.drop_last()) + (if b.last().1 is No {
            1nat
        } else {
            0nat
        })
    }
}

/// The stake of the votes for the proposal.
pub open spec fn ayes_stake(b: Ballots) -> nat
    decreases b.len(),
{
    if b.len() == 0 {
        0
    } else {
        ayes_stake(b.drop_last()) + match b.last().1 {
            Vote::Yes(stake) => stake as nat,
            _ => 0nat,
        }
    }
}

/// The stake of the votes against the proposal.
pub open spec fn nays_stake(b: Ballots) -> nat
    decreases b.len(),
{
    if b.len() == 0 {
        0
    } else {
        nays_stake(b.drop_last()) + match b.last().1 {
            Vote::No(stake) => stake as nat,
            _ => 0nat,
        }
    }
}

/// Whether `r` is the tally of the votes `b`: the voters of either side, and their stakes.
pub open spec fn tallied(r: VotingResult<Balance>, b: Ballots) -> bool {
    &&& r.ayes_count == ayes(b)
    &&& r.ayes_stake == ayes_stake(b)
    &&& r.nays_count == nays(b)
    &&& r.nays_stake == nays_stake(b)
}

/// The tally `r` with one vote more, or the counter that the vote does not fit into.
pub open spec fn counted(r: VotingResult<Balance>, vote: Vote<Balance>) -> Result<
    VotingResult<Balance>,
    Error,
> {
    match vote {
        Vote::Yes(stake) => if r.ayes_count + 1 > u32::MAX {
            Err(Error::NumberOfVotesExceeded)
        } else if r.ayes_stake + stake > Balance::MAX {
            Err(Error::StakeAmountOfVotesExceeded)
        } else {
            Ok(
                VotingResult {
                    ayes_count: (r.ayes_count + 1) as u32,
                    ayes_stake: (r.ayes_stake + stake) as Balance,
                    ..r
                },
            )
        },
        Vote::No(stake) => if r.nays_count + 1 > u32::MAX {
            Err(Error::NumberOfVotesExceeded)
        } else if r.nays_stake + stake > Balance::MAX {
            Err(Error::StakeAmountOfVotesExceeded)
        } else {
            Ok(
                VotingResult {
                    nays_count: (r.nays_count + 1) as u32,
                    nays_stake: (r.nays_stake + stake) as Balance,
                    ..r
                },
            )
        },
        Vote::NotCast => Ok(r),
    }
}

/// Adds one vote to a tally.
pub fn count(r: VotingResult<Balance>, vote: Vote<Balance>) -> (sum: Result<
    VotingResult<Balance>,
    Error,
>)
    ensures
        sum == counted(r, vote),
{
    let mut stats: VotingResult<Balance> = r;
    match vote {
        Vote::Yes(deposit) => {
            match stats.ayes_count.checked_add(1) {
                Some(n) => stats.ayes_count = n,
                None => return Err(Error::NumberOfVotesExceeded),
            }
            match stats.ayes_stake.checked_add(deposit) {
                Some(sum) => stats.ayes_stake = sum,
                None => return Err(Error::StakeAmountOfVotesExceeded),
            }
        },
        Vote::No(deposit) => {
            match stats.nays_count.checked_add(1) {
                Some(n) => stats.nays_count = n,
                None => return Err(Error::NumberOfVotesExceeded),
            }
            match stats.nays_stake.checked_add(deposit) {
                Some(sum) => stats.nays_stake = sum,
                None => return Err(Error::StakeAmountOfVotesExceeded),
            }
        },
        Vote::NotCast => {},
    }
    Ok(stats)
}

/// The tally of more votes is not smaller.
proof fn lemma_tally_grows(b: Ballots, n: int)
    requires
        0 <= n <= b.len(),
    ensures
        ayes(b.take(n)) <= ayes(b),
        nays(b.take(n)) <= nays(b),
        ayes_stake(b.take(n)) <= ayes_stake(b),
        nays_stake(b.take(n)) <= nays_stake(b),
    decreases b.len() - n,
{
    if n == b.len() {
        assert(b.take(n) =~= b);
    } else {
        assert(b.take(n + 1).drop_last() =~= b.take(n));
        lemma_tally_grows(b, n + 1);
    }
}

/// Whether `r` is the tally of the votes `votes`.
pub fn is_tallied(r: VotingResult<Balance>, votes: &Vec<(AccountId, Vote<Balance>)>) -> (answer:
    bool)
    ensures
        answer == tallied(r, votes@),
{
    let mut sum: VotingResult<Balance> = VotingResult::default();
    let mut i: usize = 0;
    while i < votes.len()
        invariant
            i <= votes.len(),
            tallied(sum, votes@.take(i as int)),
        decreases votes.len() - i,
    {
        let ballot: (AccountId, Vote<Balance>) = votes[i];
        proof {
            let (before, now) = (votes@.take(i as int), votes@.take(i + 1));
            assert(now =~= before.push(ballot));
            assert(now.drop_last() =~= before);
            if counted(sum, ballot.1) is Ok {
                lemma_counted_tallied(sum, before, ballot.0, ballot.1);
            }
            lemma_tally_grows(votes@, i + 1);
        }
        match count(sum, ballot.1) {
            Ok(more) => sum = more,
            Err(_) => return false,
        }
        i = i + 1;
    }
    assert(votes@.take(i as int) =~= votes@);
    sum.ayes_count == r.ayes_count && sum.ayes_stake == r.ayes_stake && sum.nays_count
        == r.nays_count && sum.nays_stake == r.nays_stake
}

/// Counting a vote keeps a tally in step with the votes.
pub proof fn lemma_counted_tallied(
    r: VotingResult<Balance>,
    b: Ballots,
    who: AccountId,
    vote: Vote<Balance>,
)
    requires
        tallied(r, b),
        counted(r, vote) is Ok,
    ensures
        tallied(counted(r, vote)->Ok_0, b.push((who, vote))),
{
    assert(b.push((who, vote)).drop_last() =~= b);
}

} // verus!
