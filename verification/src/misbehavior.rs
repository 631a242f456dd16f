//! The provable-fraud shapes the table can output: contradictory validity
//! votes, multiple distinct candidates proposed by one validator, and
//! statements submitted without authority.
use crate::statement::Candidate;
use crate::statement::Digest;
use crate::statement::Signature;
use crate::statement::SignedStatement;
use vstd::prelude::*;

verus! {

/// Misbehavior: voting both ways on candidate validity.
#[derive(Clone, Copy, PartialEq, Eq, Debug)]
pub struct ValidityDoubleVote {
    /// The candidate digest.
    pub digest: Digest,
    /// The signature on the true vote.
    pub t_signature: Signature,
    /// The signature on the false vote.
    pub f_signature: Signature,
}

/// Misbehavior: declaring multiple candidates.
#[derive(Clone, Copy, PartialEq, Eq, Debug)]
pub struct MultipleCandidates {
    /// The first candidate seen, with its signature.
    pub first: (Candidate, Signature),
    /// The second candidate seen, with its signature.
    pub second: (Candidate, Signature),
}

/// Misbehavior: submitted a statement without the authority to do so.
#[derive(Clone, Copy, PartialEq, Eq, Debug)]
pub struct UnauthorizedStatement {
    /// A signed statement which was submitted without proper authority.
    pub statement: SignedStatement,
}

/// Different kinds of misbehavior. All of these kinds of malicious
/// misbehavior are easily provable and extremely disincentivized.
#[derive(Clone, Copy, PartialEq, Eq, Debug)]
pub enum Misbehavior {
    /// Voted both invalid and valid on a candidate's validity.
    ValidityDoubleVote(ValidityDoubleVote),
    /// Submitted multiple candidates.
    MultipleCandidates(MultipleCandidates),
    /// Submitted a statement it had no authority to issue.
    UnauthorizedStatement(UnauthorizedStatement),
}

} // verus!
