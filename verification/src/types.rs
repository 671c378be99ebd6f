//! The values that proposals, votes and referendums are made of, and the plain
//! mathematical values (`..View`) that contracts compare in their place where a
//! value holds a vector.
use vstd::prelude::*;

verus! {

/// Mesh Improvement Proposal id. Used offchain.
pub type PipId = u32;

/// An amount of tokens.
pub type Balance = u128;

/// The number of a block.
pub type BlockNumber = u32;

/// A call of the runtime, in its encoded form.
pub type EncodedCall = Vec<u8>;

/// Compares two 32-byte strings.
fn same_bytes(a: &[u8; 32], b: &[u8; 32]) -> (same: bool)
    ensures
        same == (*a == *b),
{
    let mut i: usize = 0;
    while i < 32
        invariant
            i <= 32,
            forall|j: int| 0 <= j < i ==> a@[j] == b@[j],
        decreases 32 - i,
    {
        if a[i] != b[i] {
            return false;
        }
        i = i + 1;
    }
    assert(*a =~= *b);
    true
}

/// An account, by its 32-byte public key.
#[derive(Clone, Copy, Debug, Eq, Hash)]
pub struct AccountId(pub [u8; 32]);

impl PartialEq for AccountId {
    fn eq(&self, other: &Self) -> (same: bool) {
        same_bytes(&self.0, &other.0)
    }
}

impl vstd::std_specs::cmp::PartialEqSpecImpl for AccountId {
    open spec fn obeys_eq_spec() -> bool {
        true
    }

    open spec fn eq_spec(&self, other: &Self) -> bool {
        self.0 == other.0
    }
}

/// Whether `who` is the account that stands for nobody: its bytes are all zero.
pub open spec fn nobody(who: AccountId) -> bool {
    forall|i: int| 0 <= i < 32 ==> #[trigger] who.0@[i] == 0
}

impl Default for AccountId {
    fn default() -> (who: Self)
        ensures
            nobody(who),
    {
        AccountId([0u8; 32])
    }
}

/// An identity (DID), by its 32-byte digest.
#[derive(Clone, Copy, Debug, Eq, Hash)]
pub struct IdentityId(pub [u8; 32]);

impl PartialEq for IdentityId {
    fn eq(&self, other: &Self) -> (same: bool) {
        same_bytes(&self.0, &other.0)
    }
}

impl vstd::std_specs::cmp::PartialEqSpecImpl for IdentityId {
    open spec fn obeys_eq_spec() -> bool {
        true
    }

    open spec fn eq_spec(&self, other: &Self) -> bool {
        self.0 == other.0
    }
}

/// A copy of the bytes `bytes`.
pub(crate) fn copy_bytes(bytes: &[u8]) -> (copy: Vec<u8>)
    ensures
        copy@ == bytes@,
{
    let mut copy: Vec<u8> = Vec::with_capacity(bytes.len());
    copy.extend_from_slice(bytes);
    assert(copy@ =~= bytes@);
    copy
}

/// A wrapper for a proposal url.
#[derive(Debug, Default, Hash, PartialEq, Eq, PartialOrd, Ord)]
pub struct Url(pub Vec<u8>);

impl View for Url {
    type V = Seq<u8>;

    open spec fn view(&self) -> Seq<u8> {
        self.0@
    }
}

impl Clone for Url {
    fn clone(&self) -> (copy: Self)
        ensures
            copy@ == self@,
    {
        Url(copy_bytes(self.0.as_slice()))
    }
}

impl Url {
    /// A url that holds the bytes `s`.
    pub fn from(s: &[u8]) -> (url: Self)
        ensures
            url@ == s@,
    {
        Url(copy_bytes(s))
    }
}

/// A wrapper for a proposal description.
#[derive(Debug, Default, Hash, PartialEq, Eq, PartialOrd, Ord)]
pub struct PipDescription(pub Vec<u8>);

impl View for PipDescription {
    type V = Seq<u8>;

    open spec fn view(&self) -> Seq<u8> {
        self.0@
    }
}

impl Clone for PipDescription {
    fn clone(&self) -> (copy: Self)
        ensures
            copy@ == self@,
    {
        PipDescription(copy_bytes(self.0.as_slice()))
    }
}

impl PipDescription {
    /// A description that holds the bytes `s`.
    pub fn from(s: &[u8]) -> (description: Self)
        ensures
            description@ == s@,
    {
        PipDescription(copy_bytes(s))
    }
}

/// The bytes of an optional url.
pub open spec fn url_view(url: Option<Url>) -> Option<Seq<u8>> {
    match url {
        Some(u) => Some(u@),
        None => None,
    }
}

/// The bytes of an optional description.
pub open spec fn description_view(description: Option<PipDescription>) -> Option<Seq<u8>> {
    match description {
        Some(d) => Some(d@),
        None => None,
    }
}

/// A copy of an optional url.
pub(crate) fn clone_url(url: &Option<Url>) -> (copy: Option<Url>)
    ensures
        url_view(copy) == url_view(*url),
{
    match url {
        Some(u) => Some(u.clone()),
        None => None,
    }
}

/// A copy of an optional description.
pub(crate) fn clone_description(description: &Option<PipDescription>) -> (copy: Option<
    PipDescription,
>)
    ensures
        description_view(copy) == description_view(*description),
{
    match description {
        Some(d) => Some(d.clone()),
        None => None,
    }
}

/// Represents a proposal.
#[derive(Clone, Debug, PartialEq, Eq)]
pub struct Pip<Proposal> {
    /// The proposal's unique id.
    pub id: PipId,
    /// The proposal being voted on.
    pub proposal: Proposal,
    /// The latest state.
    pub state: ProposalState,
}

/// What a contract says of a [`Pip`].
#[verifier::ext_equal]
pub struct PipView {
    pub id: PipId,
    pub proposal: Seq<u8>,
    pub state: ProposalState,
}

impl View for Pip<EncodedCall> {
    type V = PipView;

    open spec fn view(&self) -> PipView {
        PipView { id: self.id, proposal: self.proposal@, state: self.state }
    }
}

/// Either the entire proposal encoded as a byte vector or its hash. The latter represents large
/// proposals.
#[derive(Clone, Debug, Hash, PartialEq, Eq, PartialOrd, Ord)]
pub enum ProposalData {
    /// The hash of the proposal.
    Hash([u8; 32]),
    /// The entire proposal.
    Proposal(Vec<u8>),
}

/// What a contract says of a [`ProposalData`].
#[verifier::ext_equal]
pub enum ProposalDataView {
    Hash(Seq<u8>),
    Proposal(Seq<u8>),
}

impl View for ProposalData {
    type V = ProposalDataView;

    open spec fn view(&self) -> ProposalDataView {
        match self {
            ProposalData::Hash(h) => ProposalDataView::Hash(h@),
            ProposalData::Proposal(p) => ProposalDataView::Proposal(p@),
        }
    }
}

/// Someone to be paid once a proposal has been executed.
#[derive(Clone, Copy, Debug, PartialEq, Eq)]
pub struct Beneficiary<Balance> {
    /// The identity that is paid.
    pub id: IdentityId,
    /// The amount that it is paid.
    pub amount: Balance,
}

/// Represents a proposal metadata.
#[derive(Clone, Debug, PartialEq, Eq)]
pub struct PipsMetadata {
    /// The creator.
    pub proposer: AccountId,
    /// The proposal's unique id.
    pub id: PipId,
    /// When voting will end.
    pub end: BlockNumber,
    /// The proposal url for proposal discussion.
    pub url: Option<Url>,
    /// The proposal description.
    pub description: Option<PipDescription>,
    /// During the cool-off period, which lasts until this block, the proposal's owner can amend
    /// any detail of the proposal or cancel it entirely.
    pub cool_off_until: BlockNumber,
    /// Beneficiaries of this proposal.
    pub beneficiaries: Vec<Beneficiary<Balance>>,
}

/// What a contract says of a [`PipsMetadata`].
#[verifier::ext_equal]
pub struct MetadataView {
    pub proposer: AccountId,
    pub id: PipId,
    pub end: BlockNumber,
    pub url: Option<Seq<u8>>,
    pub description: Option<Seq<u8>>,
    pub cool_off_until: BlockNumber,
    pub beneficiaries: Seq<Beneficiary<Balance>>,
}

impl View for PipsMetadata {
    type V = MetadataView;

    open spec fn view(&self) -> MetadataView {
        MetadataView {
            proposer: self.proposer,
            id: self.id,
            end: self.end,
            url: url_view(self.url),
            description: description_view(self.description),
            cool_off_until: self.cool_off_until,
            beneficiaries: self.beneficiaries@,
        }
    }
}

/// For keeping track of proposal being voted on.
#[derive(Clone, Copy, Debug, PartialEq, Eq)]
pub struct VotingResult<Balance> {
    /// The number of voters that approved.
    pub ayes_count: u32,
    /// The stake of the voters that approved.
    pub ayes_stake: Balance,
    /// The number of voters that rejected.
    pub nays_count: u32,
    /// The stake of the voters that rejected.
    pub nays_stake: Balance,
}

impl View for VotingResult<Balance> {
    type V = VotingResult<Balance>;

    open spec fn view(&self) -> VotingResult<Balance> {
        *self
    }
}

/// The tally of a proposal on which nobody has voted.
pub open spec fn no_votes() -> VotingResult<Balance> {
    VotingResult { ayes_count: 0, ayes_stake: 0, nays_count: 0, nays_stake: 0 }
}

impl Default for VotingResult<Balance> {
    fn default() -> (result: Self)
        ensures
            result == no_votes(),
    {
        VotingResult { ayes_count: 0, ayes_stake: 0, nays_count: 0, nays_stake: 0 }
    }
}

/// The vote of one account on one proposal.
#[derive(Clone, Copy, Debug, PartialEq, Eq)]
pub enum Vote<Balance> {
    /// The account has not voted.
    NotCast,
    /// The account voted for the proposal, with a stake.
    Yes(Balance),
    /// The account voted against the proposal, with a stake.
    No(Balance),
}

impl<Balance> Default for Vote<Balance> {
    fn default() -> (vote: Self)
        ensures
            vote == Vote::<Balance>::NotCast,
    {
        Vote::NotCast
    }
}

/// The state of a proposal.
#[derive(Clone, Copy, Debug, PartialEq, Eq, Structural)]
pub enum ProposalState {
    /// Proposal is created and either in the cool-down period or open to voting.
    Pending,
    /// Proposal is cancelled by its owner.
    Cancelled,
    /// Proposal was killed by the governance committee.
    Killed,
    /// Proposal failed to pass by a community vote.
    Rejected,
    /// Proposal has moved to referendum stage.
    Referendum,
}

impl Default for ProposalState {
    fn default() -> (state: Self)
        ensures
            state == ProposalState::Pending,
    {
        ProposalState::Pending
    }
}

/// The state of a referendum.
#[derive(Clone, Copy, Debug, PartialEq, Eq, Structural)]
pub enum ReferendumState {
    /// Pending ratification by the governance committee.
    Pending,
    /// Execution of this PIP is scheduled, i.e. it needs to wait its enactment period.
    Scheduled,
    /// Rejected by the governance committee.
    Rejected,
    /// It has been executed, but execution failed.
    Failed,
    /// It has been successfully executed.
    Executed,
}

/// Where a referendum comes from.
#[derive(Clone, Copy, Debug, PartialEq, Eq, Structural)]
pub enum ReferendumType {
    /// Referendum pushed by the governance committee (fast-tracked).
    FastTracked,
    /// Referendum created by the governance committee.
    Emergency,
    /// Created through a community vote.
    Community,
}

/// Properties of a referendum.
#[derive(Clone, Copy, Debug, PartialEq, Eq)]
pub struct Referendum {
    /// The proposal's unique id.
    pub id: PipId,
    /// Current state of this referendum.
    pub state: ReferendumState,
    /// The type of the referendum.
    pub referendum_type: ReferendumType,
    /// The block at which the enactment period ends.
    pub enactment_period: BlockNumber,
}

impl View for Referendum {
    type V = Referendum;

    open spec fn view(&self) -> Referendum {
        *self
    }
}

/// Information about deposit.
#[derive(Clone, Copy, Debug, PartialEq, Eq)]
pub struct DepositInfo<AccountId, Balance> {
    /// Owner of the deposit.
    pub owner: AccountId,
    /// Amount. It can be updated during the cool off period.
    pub amount: Balance,
}

impl Default for DepositInfo<AccountId, Balance> {
    fn default() -> (info: Self)
        ensures
            nobody(info.owner),
            info.amount == 0,
    {
        DepositInfo { owner: AccountId::default(), amount: 0 }
    }
}

/// A deposit on a proposal.
pub type Deposit = DepositInfo<AccountId, Balance>;

/// The votes on a proposal, as they are reported.
#[derive(Clone, Copy, Debug, PartialEq, Eq)]
pub enum VoteCount<Balance> {
    /// The proposal is unknown, or never was open to votes.
    ProposalNotFound,
    /// The stakes for and against the proposal.
    Success { ayes: Balance, nays: Balance },
}

/// What makes the module refuse a call.
#[derive(Clone, Copy, Debug, PartialEq, Eq, Structural)]
pub enum Error {
    /// Incorrect origin.
    BadOrigin,
    /// Proposer can't afford to lock minimum deposit.
    InsufficientDeposit,
    /// When a voter votes again.
    DuplicateVote,
    /// Duplicate proposal.
    DuplicateProposal,
    /// The proposal does not exist.
    NoSuchProposal,
    /// Mismatched proposal id.
    MismatchedProposalId,
    /// Not part of governance committee.
    NotACommitteeMember,
    /// The proposal is in its cool-off period.
    ProposalOnCoolOffPeriod,
    /// Proposal is immutable after cool-off period.
    ProposalIsImmutable,
    /// Referendum is still on its enactment period.
    ReferendumOnEnactmentPeriod,
    /// Referendum is immutable.
    ReferendumIsImmutable,
    /// When a block number is less than current block number.
    InvalidFutureBlockNumber,
    /// When number of votes overflows.
    NumberOfVotesExceeded,
    /// When stake amount of a vote overflows.
    StakeAmountOfVotesExceeded,
}

/// The code of an error of another part of the runtime. It is handed on unchanged.
#[derive(Clone, Copy, Debug, PartialEq, Eq, Structural)]
pub struct ForeignError(pub u32);

/// Why a call failed.
#[derive(Clone, Copy, Debug, PartialEq, Eq, Structural)]
pub enum DispatchError {
    /// The call had to be signed by an account.
    BadOrigin,
    /// The module refused the call.
    Module(Error),
    /// Another part of the runtime refused what the call needs.
    Foreign(ForeignError),
}

/// The outcome of a call.
pub type DispatchResult = Result<(), DispatchError>;

/// Who makes a call, as far as the rules depend on it.
#[derive(Clone, Copy, Debug, PartialEq, Eq)]
pub struct Origin {
    /// The account that signed the call, if one did.
    pub signer: Option<AccountId>,
    /// Whether the call comes from the governance committee.
    pub committee: bool,
    /// Whether the call comes from a voting majority of the governance committee.
    pub voting_majority: bool,
    /// The identity of the signer, or the error with which the search for it ended.
    pub identity: Result<IdentityId, ForeignError>,
    /// Whether that identity is a member of the governance committee.
    pub committee_member: bool,
}

/// The governance committee, as far as the rules depend on it.
#[derive(Clone, Copy, Debug, PartialEq, Eq)]
pub struct Committee {
    /// The number of its members.
    pub members: u32,
    /// The member that coordinates releases, if there is one.
    pub release_coordinator: Option<IdentityId>,
}

/// What came of the payments that a new proposal needs: first its deposit is reserved, then the
/// protocol fee is charged.
#[derive(Clone, Copy, Debug, PartialEq, Eq)]
pub enum Payment {
    /// The proposer cannot afford the deposit. Nothing was reserved, and no fee was asked for.
    Declined,
    /// The deposit is reserved, and stays so, but the fee could not be charged.
    FeeRefused(ForeignError),
    /// The deposit is reserved and the fee is paid.
    Settled,
}

/// The parameters of the module.
#[derive(Clone, Copy, Debug, PartialEq, Eq)]
pub struct Config {
    /// Whether the data of closed proposals is removed.
    pub prune_historical_pips: bool,
    /// The minimum amount to be used as a deposit for a public referendum proposal.
    pub min_proposal_deposit: Balance,
    /// Minimum stake a proposal must gather in order to be considered by the committee.
    pub quorum_threshold: Balance,
    /// During the cool-off period, of this many blocks, the proposal's owner can amend any detail
    /// of the proposal or cancel it entirely.
    pub proposal_cool_off_period: BlockNumber,
    /// How long (in blocks) a ballot runs.
    pub proposal_duration: BlockNumber,
    /// Default enactment period that will be used after a proposal is accepted by the governance
    /// committee.
    pub default_enactment_period: BlockNumber,
    /// An encoded proposal of more bytes than this is reported by its hash.
    pub max_reporting_size: usize,
}

/// What the module reports to the outside.
#[derive(Clone, Debug, PartialEq, Eq)]
pub enum Event {
    /// Pruning of historical PIPs is enabled or disabled (old value, new value).
    PruningHistoricalPips(bool, bool),
    /// A Mesh Improvement Proposal was made with a `Balance` stake (proposer, id, deposit, url,
    /// description, end of the cool-off period, end of voting, proposal).
    ProposalCreated(
        AccountId,
        PipId,
        Balance,
        Option<Url>,
        Option<PipDescription>,
        BlockNumber,
        BlockNumber,
        ProposalData,
    ),
    /// A Mesh Improvement Proposal was amended with a possible change to the bond: the flag is
    /// set when bond is added, not set when it is removed.
    ProposalAmended(AccountId, PipId, bool, Balance),
    /// Triggered each time the state of a proposal is amended.
    ProposalStateUpdated(PipId, ProposalState),
    /// An account voted for (`true`) or against (`false`) a proposal.
    Voted(AccountId, PipId, bool, Balance),
    /// A PIP has been closed; the flag indicates whether its data is pruned.
    PipClosed(PipId, bool),
    /// Referendum created for proposal.
    ReferendumCreated(PipId, ReferendumType),
    /// Referendum execution has been scheduled (id, block it was scheduled at, new block).
    ReferendumScheduled(PipId, BlockNumber, BlockNumber),
    /// Triggered each time the state of a referendum is amended.
    ReferendumStateUpdated(PipId, ReferendumState),
    /// Default enactment period (in blocks) has been changed (old period, new period).
    DefaultEnactmentPeriodChanged(BlockNumber, BlockNumber),
    /// Minimum deposit amount modified (old amount, new amount).
    MinimumProposalDepositChanged(Balance, Balance),
    /// Quorum threshold changed (old value, new value).
    QuorumThresholdChanged(Balance, Balance),
    /// Proposal duration changed (old value, new value).
    ProposalDurationChanged(BlockNumber, BlockNumber),
    /// Refund of a proposal (id, total amount).
    ProposalRefund(PipId, Balance),
    /// Proposal has beneficiaries (id, total amount).
    ProposalPayment(PipId, Balance),
}

/// What a contract says of an [`Event`].
#[verifier::ext_equal]
pub enum EventView {
    PruningHistoricalPips(bool, bool),
    ProposalCreated(
        AccountId,
        PipId,
        Balance,
        Option<Seq<u8>>,
        Option<Seq<u8>>,
        BlockNumber,
        BlockNumber,
        ProposalDataView,
    ),
    ProposalAmended(AccountId, PipId, bool, Balance),
    ProposalStateUpdated(PipId, ProposalState),
    Voted(AccountId, PipId, bool, Balance),
    PipClosed(PipId, bool),
    ReferendumCreated(PipId, ReferendumType),
    ReferendumScheduled(PipId, BlockNumber, BlockNumber),
    ReferendumStateUpdated(PipId, ReferendumState),
    DefaultEnactmentPeriodChanged(BlockNumber, BlockNumber),
    MinimumProposalDepositChanged(Balance, Balance),
    QuorumThresholdChanged(Balance, Balance),
    ProposalDurationChanged(BlockNumber, BlockNumber),
    ProposalRefund(PipId, Balance),
    ProposalPayment(PipId, Balance),
}

impl View for Event {
    type V = EventView;

    open spec fn view(&self) -> EventView {
        match *self {
            Event::PruningHistoricalPips(a, b) => EventView::PruningHistoricalPips(a, b),
            Event::ProposalCreated(who, id, deposit, url, description, cool, end, data) =>
                EventView::ProposalCreated(
                    who,
                    id,
                    deposit,
                    url_view(url),
                    description_view(description),
                    cool,
                    end,
                    data@,
                ),
            Event::ProposalAmended(who, id, added, amount) => EventView::ProposalAmended(
                who,
                id,
                added,
                amount,
            ),
            Event::ProposalStateUpdated(id, state) => EventView::ProposalStateUpdated(id, state),
            Event::Voted(who, id, aye, amount) => EventView::Voted(who, id, aye, amount),
            Event::PipClosed(id, pruned) => EventView::PipClosed(id, pruned),
            Event::ReferendumCreated(id, kind) => EventView::ReferendumCreated(id, kind),
            Event::ReferendumScheduled(id, before, after) => EventView::ReferendumScheduled(
                id,
                before,
                after,
            ),
            Event::ReferendumStateUpdated(id, state) => EventView::ReferendumStateUpdated(
                id,
                state,
            ),
            Event::DefaultEnactmentPeriodChanged(a, b) => EventView::DefaultEnactmentPeriodChanged(
                a,
                b,
            ),
            Event::MinimumProposalDepositChanged(a, b) => EventView::MinimumProposalDepositChanged(
                a,
                b,
            ),
            Event::QuorumThresholdChanged(a, b) => EventView::QuorumThresholdChanged(a, b),
            Event::ProposalDurationChanged(a, b) => EventView::ProposalDurationChanged(a, b),
            Event::ProposalRefund(id, total) => EventView::ProposalRefund(id, total),
            Event::ProposalPayment(id, total) => EventView::ProposalPayment(id, total),
        }
    }
}

/// Work that the module leaves to the rest of the runtime, to be done in the order in which it
/// was left.
#[derive(Clone, Debug, PartialEq, Eq)]
pub enum Effect {
    /// Report an event.
    Deposit(Event),
    /// Release an amount that was reserved for an account.
    Unreserve { who: AccountId, amount: Balance },
    /// Release each of these deposits, all of them on the proposal `id`, and report what
    /// [`refund_event`](crate::pips::refund_event) makes of the answers.
    Refund { id: PipId, deposits: Vec<Deposit> },
    /// Pay an identity out of the treasury.
    Disburse { to: IdentityId, amount: Balance },
}

/// What a contract says of an [`Effect`].
#[verifier::ext_equal]
pub enum EffectView {
    Deposit(EventView),
    Unreserve { who: AccountId, amount: Balance },
    Refund { id: PipId, deposits: Seq<Deposit> },
    Disburse { to: IdentityId, amount: Balance },
}

impl View for Effect {
    type V = EffectView;

    open spec fn view(&self) -> EffectView {
        match *self {
            Effect::Deposit(event) => EffectView::Deposit(event@),
            Effect::Unreserve { who, amount } => EffectView::Unreserve { who, amount },
            Effect::Refund { id, deposits } => EffectView::Refund { id, deposits: deposits@ },
            Effect::Disburse { to, amount } => EffectView::Disburse { to, amount },
        }
    }
}

} // verus!
