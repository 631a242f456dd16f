//! A statement table for a Byzantine-fault-tolerant candidate-agreement
//! protocol.
//!
//! The table accumulates signed statements that validators broadcast about
//! candidates: proposals, validity attestations, invalidity attestations and
//! availability attestations. It keeps a ledger of votes per candidate and
//! per validator, and whenever a validator's statements are mutually
//! contradictory or outside that validator's authority it records a proof of
//! the misbehavior.
//!
//! Each group is associated with two sets of validators: members, who may
//! propose candidates and vote on validity, and availability guarantors, who
//! may only attest availability. Membership, digests and signer recovery are
//! supplied by a [`Context`](statement::Context) capability that the caller
//! implements.
pub mod keymap;
pub mod laws;
pub mod misbehavior;
pub mod model;
pub mod roster;
pub mod statement;
pub mod table;

pub use misbehavior::Misbehavior;
pub use misbehavior::MultipleCandidates;
pub use misbehavior::UnauthorizedStatement;
pub use misbehavior::ValidityDoubleVote;
pub use roster::RosterContext;
pub use statement::Candidate;
pub use statement::Context;
pub use statement::Digest;
pub use statement::GroupId;
pub use statement::Signature;
pub use statement::SignedStatement;
pub use statement::Statement;
pub use statement::ValidatorId;
pub use table::create;
pub use table::Table;
