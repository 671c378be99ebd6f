//! Mesh Improvement Proposals (PIPs) are proposals (ballots) that can be proposed and voted on by
//! all MESH token holders. If a ballot passes this community vote it is then passed to the
//! governance council to ratify (or reject).
//!
//! - A minimum of MESH needs to be staked by the proposer of the ballot in order to create a new
//!   ballot.
//! - A minimum of MESH (quorum) needs to vote in favour of the ballot in order for the ballot to be
//!   considered by the governing committee.
//! - Ballots run for a fixed number of blocks, after a cool-off period in which only the proposer
//!   can act on them.
//! - A simple majority is needed to pass the ballot so that it heads for the next stage (governing
//!   committee).
//!
//! [`store::Module`] holds all state. Its calls do no input or output: what the runtime answered
//! to a request is given to them, and what the runtime is to do (release a deposit, pay a
//! beneficiary, report an event) they leave as [`types::Effect`]s. Their contracts speak of
//! [`model::State`], the state as a mathematical value. [`rules`], [`blocks`] and [`readings`]
//! prove what each call does, told by its inputs and results; [`laws`], [`schedule`] and [`runs`]
//! prove what holds of all calls together.
pub mod blocks;
pub mod hashing;
pub mod history;
pub mod laws;
pub mod ledger;
pub mod model;
pub mod pips;
pub mod readings;
pub mod rules;
pub mod runs;
pub mod schedule;
pub mod snapshot;
pub mod soundness;
pub mod store;
pub mod table;
pub mod tally;
pub mod types;
