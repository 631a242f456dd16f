//! The mathematical model of the table and the specification-level
//! transition that one imported statement performs on it. The executable
//! table in [`crate::table`] is proved to follow this transition exactly.
use crate::misbehavior::Misbehavior;
use crate::misbehavior::MultipleCandidates;
use crate::misbehavior::UnauthorizedStatement;
use crate::misbehavior::ValidityDoubleVote;
use crate::statement::Candidate;
use crate::statement::Context;
use crate::statement::Digest;
use crate::statement::GroupId;
use crate::statement::Signature;
use crate::statement::SignedStatement;
use crate::statement::Statement;
use crate::statement::ValidatorId;
use vstd::prelude::*;

verus! {

/// The model of the accumulated votes on one candidate.
#[verifier::ext_equal]
pub struct CandidateModel {
    /// The group the candidate belongs to, fixed at first sight.
    pub group_id: GroupId,
    /// The candidate payload itself.
    pub candidate: Candidate,
    /// Each validator's single validity attestation: the vote-is-valid flag
    /// and the signature it arrived under.
    pub validity: Map<ValidatorId, (bool, Signature)>,
    /// The validators that attested availability.
    pub availability: Set<ValidatorId>,
    /// The validators appended on their first validity vote, in order of
    /// arrival.
    pub indicated_bad: Seq<ValidatorId>,
}

/// The model of the whole table: the one candidate each validator has
/// proposed so far, the most recent misbehavior proof recorded per
/// validator, and the per-candidate vote ledgers.
#[verifier::ext_equal]
pub struct TableModel {
    /// Digest and signature of the one candidate each validator proposed.
    pub proposed: Map<ValidatorId, (Digest, Signature)>,
    /// At most one misbehavior proof per validator; a later proof replaces
    /// an earlier one.
    pub misbehavior: Map<ValidatorId, Misbehavior>,
    /// The vote ledger of every candidate the table has accepted a proposal
    /// for, keyed by digest.
    pub candidates: Map<Digest, CandidateModel>,
}

impl CandidateModel {
    /// A fresh ledger for a candidate first seen now: no votes yet.
    pub open spec fn fresh(group_id: GroupId, candidate: Candidate) -> CandidateModel {
        CandidateModel {
            group_id,
            candidate,
            validity: Map::empty(),
            availability: Set::empty(),
            indicated_bad: Seq::empty(),
        }
    }
}

impl TableModel {
    /// The model of a table with nothing imported yet.
    pub open spec fn empty() -> TableModel {
        TableModel { proposed: Map::empty(), misbehavior: Map::empty(), candidates: Map::empty() }
    }

    /// The structural invariant: any recorded proposal's digest has a
    /// corresponding candidate ledger, since the two are created together.
    pub open spec fn inv(self) -> bool {
        forall|v: ValidatorId| #[trigger]
            self.proposed.contains_key(v) ==> self.candidates.contains_key(self.proposed[v].0)
    }
}

/// What handling a candidate proposal does: the table after the step and
/// the misbehavior it detects, if any.
///
/// A proposal from outside the signer's group is unauthorized. A second
/// proposal by the same signer is tolerated when it carries the same digest
/// and proven as equivocation when it does not; the first proposal is
/// retained either way. A first proposal is recorded, and a vote ledger is
/// created for its digest unless one already exists.
pub open spec fn proposal_step<C: Context>(
    context: &C,
    t: TableModel,
    from: ValidatorId,
    candidate: Candidate,
    signature: Signature,
) -> (TableModel, Option<Misbehavior>) {
    let group = context.spec_candidate_group(candidate);
    if !context.spec_is_member_of(from, group) {
        (
            t,
            Some(
                Misbehavior::UnauthorizedStatement(
                    UnauthorizedStatement {
                        statement: SignedStatement {
                            statement: Statement::Candidate(candidate),
                            signature,
                        },
                    },
                ),
            ),
        )
    } else {
        let digest = context.spec_candidate_digest(candidate);
        if t.proposed.contains_key(from) {
            let old_digest = t.proposed[from].0;
            let old_signature = t.proposed[from].1;
            if old_digest != digest {
                let old_candidate = t.candidates[old_digest].candidate;
                (
                    t,
                    Some(
                        Misbehavior::MultipleCandidates(
                            MultipleCandidates {
                                first: (old_candidate, old_signature),
                                second: (candidate, signature),
                            },
                        ),
                    ),
                )
            } else {
                (t, None)
            }
        } else {
            let with_ledger = if t.candidates.contains_key(digest) {
                t.candidates
            } else {
                t.candidates.insert(digest, CandidateModel::fresh(group, candidate))
            };
            (
                TableModel {
                    proposed: t.proposed.insert(from, (digest, signature)),
                    candidates: with_ledger,
                    ..t
                },
                None,
            )
        }
    }
}

/// What handling a validity or invalidity attestation does.
///
/// A vote on a digest the table has no ledger for is silently dropped: that
/// is the bounded-memory policy, not an error. A vote from outside the
/// candidate's group is unauthorized. A first vote is recorded, and the
/// voter is appended to the ledger's `indicated_bad` list whatever the
/// vote's flag; a repeated identical vote is tolerated; a contradictory
/// vote is proven as a double vote, the true-vote signature in the first
/// slot whatever the arrival order, and the recorded vote is left unchanged.
pub open spec fn validity_step<C: Context>(
    context: &C,
    t: TableModel,
    from: ValidatorId,
    digest: Digest,
    valid: bool,
    signature: Signature,
) -> (TableModel, Option<Misbehavior>) {
    if !t.candidates.contains_key(digest) {
        (t, None)
    } else {
        let ledger = t.candidates[digest];
        if !context.spec_is_member_of(from, ledger.group_id) {
            (
                t,
                Some(
                    Misbehavior::UnauthorizedStatement(
                        UnauthorizedStatement {
                            statement: SignedStatement {
                                statement: if valid {
                                    Statement::Valid(digest)
                                } else {
                                    Statement::Invalid(digest)
                                },
                                signature,
                            },
                        },
                    ),
                ),
            )
        } else if ledger.validity.contains_key(from) {
            let old_valid = ledger.validity[from].0;
            let old_signature = ledger.validity[from].1;
            if old_valid != valid {
                let signatures = if valid {
                    (signature, old_signature)
                } else {
                    (old_signature, signature)
                };
                (
                    t,
                    Some(
                        Misbehavior::ValidityDoubleVote(
                            ValidityDoubleVote {
                                digest,
                                t_signature: signatures.0,
                                f_signature: signatures.1,
                            },
                        ),
                    ),
                )
            } else {
                (t, None)
            }
        } else {
            let voted = CandidateModel {
                validity: ledger.validity.insert(from, (valid, signature)),
                indicated_bad: ledger.indicated_bad.push(from),
                ..ledger
            };
            (TableModel { candidates: t.candidates.insert(digest, voted), ..t }, None)
        }
    }
}

/// What handling an availability attestation does.
///
/// A vote on a digest the table has no ledger for is silently dropped. A
/// vote from a validator that is not an availability guarantor of the
/// candidate's group is unauthorized. Otherwise the voter joins the
/// availability set; repetition is harmless, there being no opposite
/// availability vote to contradict.
pub open spec fn availability_step<C: Context>(
    context: &C,
    t: TableModel,
    from: ValidatorId,
    digest: Digest,
    signature: Signature,
) -> (TableModel, Option<Misbehavior>) {
    if !t.candidates.contains_key(digest) {
        (t, None)
    } else {
        let ledger = t.candidates[digest];
        if !context.spec_is_availability_guarantor_of(from, ledger.group_id) {
            (
                t,
                Some(
                    Misbehavior::UnauthorizedStatement(
                        UnauthorizedStatement {
                            statement: SignedStatement {
                                statement: Statement::Available(digest),
                                signature,
                            },
                        },
                    ),
                ),
            )
        } else {
            let attested = CandidateModel {
                availability: ledger.availability.insert(from),
                ..ledger
            };
            (TableModel { candidates: t.candidates.insert(digest, attested), ..t }, None)
        }
    }
}

/// What importing one signed statement does: the table after the import and
/// the misbehavior detected during it, if any.
///
/// A statement whose signer cannot be recovered is dropped whole. Otherwise
/// the statement's variant chooses the step, and a detected misbehavior is
/// recorded under the signer, replacing any earlier record: punishment is
/// not cumulative.
pub open spec fn import_step<C: Context>(context: &C, t: TableModel, statement: SignedStatement) -> (
    TableModel,
    Option<Misbehavior>,
) {
    match context.spec_statement_signer(statement) {
        None => (t, None),
        Some(signer) => {
            let stepped = match statement.statement {
                Statement::Candidate(candidate) => proposal_step(
                    context,
                    t,
                    signer,
                    candidate,
                    statement.signature,
                ),
                Statement::Valid(digest) => validity_step(
                    context,
                    t,
                    signer,
                    digest,
                    true,
                    statement.signature,
                ),
                Statement::Invalid(digest) => validity_step(
                    context,
                    t,
                    signer,
                    digest,
                    false,
                    statement.signature,
                ),
                Statement::Available(digest) => availability_step(
                    context,
                    t,
                    signer,
                    digest,
                    statement.signature,
                ),
            };
            match stepped.1 {
                Some(misbehavior) => (
                    TableModel {
                        misbehavior: stepped.0.misbehavior.insert(signer, misbehavior),
                        ..stepped.0
                    },
                    Some(misbehavior),
                ),
                None => stepped,
            }
        },
    }
}

/// The table after importing one signed statement.
pub open spec fn import_result<C: Context>(
    context: &C,
    t: TableModel,
    statement: SignedStatement,
) -> TableModel {
    import_step(context, t, statement).0
}

} // verus!
