//! The vocabulary of statements that validators circulate, and the context
//! capability through which digests, group membership and signers are
//! supplied to the table.
use vstd::prelude::*;

verus! {

/// Identity of a validator.
pub type ValidatorId = u64;

/// Content identifier of a candidate.
pub type Digest = u64;

/// Identity of a group.
pub type GroupId = u64;

/// An opaque signature value.
pub type Signature = u64;

/// A candidate payload: the group it is submitted for and its body.
#[derive(Clone, Copy, PartialEq, Eq, PartialOrd, Ord, Debug)]
pub struct Candidate {
    /// The group the candidate is submitted for.
    pub group: GroupId,
    /// The candidate's body.
    pub body: u64,
}

/// Statements circulated among peers.
#[derive(Clone, Copy, PartialEq, Eq, Debug)]
pub enum Statement {
    /// Broadcast by a validator to indicate that this is its candidate for
    /// inclusion.
    ///
    /// Broadcasting two different candidate messages per round is not
    /// allowed.
    Candidate(Candidate),
    /// Broadcast by a validator to attest that the candidate with the given
    /// digest is valid.
    Valid(Digest),
    /// Broadcast by a validator to attest that the auxiliary data for the
    /// candidate with the given digest is available.
    Available(Digest),
    /// Broadcast by a validator to attest that the candidate with the given
    /// digest is invalid.
    Invalid(Digest),
}

/// A signed statement. The signer is not carried inline: it is recovered
/// through the context from the statement and the signature.
#[derive(Clone, Copy, PartialEq, Eq, Debug)]
pub struct SignedStatement {
    /// The statement.
    pub statement: Statement,
    /// The signature.
    pub signature: Signature,
}

/// Context for the statement table: the externally supplied, pure policy
/// functions that the table consults but never implements.
///
/// Each executable method is pinned to a specification-level function of the
/// same meaning, so that the table's contracts can speak about the context's
/// answers.
pub trait Context: Sized {
    /// The digest of a candidate, at the specification level.
    spec fn spec_candidate_digest(&self, candidate: Candidate) -> Digest;

    /// The group of a candidate, at the specification level.
    spec fn spec_candidate_group(&self, candidate: Candidate) -> GroupId;

    /// Whether a validator is a member of a group, at the specification
    /// level.
    spec fn spec_is_member_of(&self, validator: ValidatorId, group: GroupId) -> bool;

    /// Whether a validator is an availability guarantor of a group, at the
    /// specification level.
    spec fn spec_is_availability_guarantor_of(&self, validator: ValidatorId, group: GroupId) -> bool;

    /// The signer a signed statement is recovered to, at the specification
    /// level. `None` stands for an invalid or unrecoverable signature.
    spec fn spec_statement_signer(&self, statement: SignedStatement) -> Option<ValidatorId>;

    /// Get the digest of a candidate.
    fn candidate_digest(&self, candidate: &Candidate) -> (digest: Digest)
        ensures
            digest == self.spec_candidate_digest(*candidate),
    ;

    /// Get the group of a candidate.
    fn candidate_group(&self, candidate: &Candidate) -> (group: GroupId)
        ensures
            group == self.spec_candidate_group(*candidate),
    ;

    /// Whether a validator is a member of a group. Members are meant to
    /// submit candidates and vote on validity.
    fn is_member_of(&self, validator: &ValidatorId, group: &GroupId) -> (r: bool)
        ensures
            r == self.spec_is_member_of(*validator, *group),
    ;

    /// Whether a validator is an availability guarantor of a group.
    /// Guarantors are meant to vote on availability for candidates submitted
    /// in a group.
    fn is_availability_guarantor_of(&self, validator: &ValidatorId, group: &GroupId) -> (r: bool)
        ensures
            r == self.spec_is_availability_guarantor_of(*validator, *group),
    ;

    /// Recover the signer of a statement, or `None` if the signature is
    /// invalid or unrecoverable.
    fn statement_signer(&self, statement: &SignedStatement) -> (r: Option<ValidatorId>)
        ensures
            r == self.spec_statement_signer(*statement),
    ;
}

} // verus!
