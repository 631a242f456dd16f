//! Laws of the statement table, proved once and for all over the
//! specification-level transition in [`crate::model`]. Since
//! [`Table::import_statement`](crate::table::Table::import_statement) is
//! proved to follow that transition exactly, each law holds of the
//! executable table as well.
use crate::misbehavior::Misbehavior;
use crate::misbehavior::MultipleCandidates;
use crate::misbehavior::UnauthorizedStatement;
use crate::misbehavior::ValidityDoubleVote;
use crate::model::import_result;
use crate::model::import_step;
use crate::model::TableModel;
use crate::statement::Candidate;
use crate::statement::Context;
use crate::statement::Digest;
use crate::statement::Signature;
use crate::statement::SignedStatement;
use crate::statement::Statement;
use crate::statement::ValidatorId;
use vstd::prelude::*;

verus! {

/// Importing a statement always leaves the table in a state that satisfies
/// the structural invariant: every recorded proposal's digest has a
/// candidate ledger.
pub proof fn lemma_import_preserves_inv<C: Context>(
    context: &C,
    t: TableModel,
    statement: SignedStatement,
)
    requires
        t.inv(),
    ensures
        import_result(context, t, statement).inv(),
{
    let t1 = import_result(context, t, statement);
    assert forall|v: ValidatorId| #[trigger]
        t1.proposed.contains_key(v) implies t1.candidates.contains_key(t1.proposed[v].0) by {
        assert(t.proposed.contains_key(v) ==> t.candidates.contains_key(t.proposed[v].0));
    }
}

/// Idempotence of identical proposals: importing the same authorized, fresh
/// proposal twice produces no misbehavior and leaves the table exactly as
/// importing it once does.
pub proof fn lemma_proposal_idempotent<C: Context>(
    context: &C,
    t: TableModel,
    validator: ValidatorId,
    candidate: Candidate,
    signature: Signature,
)
    requires
        ({
            let s = SignedStatement { statement: Statement::Candidate(candidate), signature };
            context.spec_statement_signer(s) == Some(validator)
        }),
        context.spec_is_member_of(validator, context.spec_candidate_group(candidate)),
        !t.proposed.contains_key(validator),
    ensures
        ({
            let s = SignedStatement { statement: Statement::Candidate(candidate), signature };
            let once = import_result(context, t, s);
            once.misbehavior == t.misbehavior && import_result(context, once, s) == once
        }),
{
}

/// Equivocating proposal detection: a validator that proposes one candidate
/// and then a different one is proven to have equivocated, with both signed
/// candidates in the proof, and its first proposal is retained.
pub proof fn lemma_multiple_candidates_detected<C: Context>(
    context: &C,
    t: TableModel,
    validator: ValidatorId,
    first: Candidate,
    first_signature: Signature,
    second: Candidate,
    second_signature: Signature,
)
    requires
        ({
            let s = SignedStatement {
                statement: Statement::Candidate(first),
                signature: first_signature,
            };
            context.spec_statement_signer(s) == Some(validator)
        }),
        ({
            let s = SignedStatement {
                statement: Statement::Candidate(second),
                signature: second_signature,
            };
            context.spec_statement_signer(s) == Some(validator)
        }),
        context.spec_is_member_of(validator, context.spec_candidate_group(first)),
        context.spec_is_member_of(validator, context.spec_candidate_group(second)),
        context.spec_candidate_digest(first) != context.spec_candidate_digest(second),
        !t.proposed.contains_key(validator),
        !t.candidates.contains_key(context.spec_candidate_digest(first)),
    ensures
        ({
            let s1 = SignedStatement {
                statement: Statement::Candidate(first),
                signature: first_signature,
            };
            let s2 = SignedStatement {
                statement: Statement::Candidate(second),
                signature: second_signature,
            };
            let t1 = import_result(context, t, s1);
            let t2 = import_result(context, t1, s2);
            &&& t2.misbehavior.contains_key(validator)
            &&& t2.misbehavior[validator] == Misbehavior::MultipleCandidates(
                MultipleCandidates {
                    first: (first, first_signature),
                    second: (second, second_signature),
                },
            )
            &&& t2.proposed == t1.proposed
            &&& t2.proposed.contains_key(validator)
            &&& t2.proposed[validator] == (context.spec_candidate_digest(first), first_signature)
            &&& t2.candidates == t1.candidates
        }),
{
}

/// Validity double-vote detection: an authorized validator that votes both
/// ways on one digest is proven to have double-voted, the true-vote
/// signature in the first slot and the false-vote signature in the second,
/// whatever the arrival order.
pub proof fn lemma_validity_double_vote_detected<C: Context>(
    context: &C,
    t: TableModel,
    validator: ValidatorId,
    digest: Digest,
    valid_signature: Signature,
    invalid_signature: Signature,
)
    requires
        t.candidates.contains_key(digest),
        context.spec_is_member_of(validator, t.candidates[digest].group_id),
        ({
            let s = SignedStatement {
                statement: Statement::Valid(digest),
                signature: valid_signature,
            };
            context.spec_statement_signer(s) == Some(validator)
        }),
        ({
            let s = SignedStatement {
                statement: Statement::Invalid(digest),
                signature: invalid_signature,
            };
            context.spec_statement_signer(s) == Some(validator)
        }),
        !t.candidates[digest].validity.contains_key(validator),
    ensures
        ({
            let sv = SignedStatement {
                statement: Statement::Valid(digest),
                signature: valid_signature,
            };
            let si = SignedStatement {
                statement: Statement::Invalid(digest),
                signature: invalid_signature,
            };
            let proof_value = Misbehavior::ValidityDoubleVote(
                ValidityDoubleVote {
                    digest,
                    t_signature: valid_signature,
                    f_signature: invalid_signature,
                },
            );
            let forward = import_result(context, import_result(context, t, sv), si);
            let backward = import_result(context, import_result(context, t, si), sv);
            &&& forward.misbehavior.contains_key(validator)
            &&& forward.misbehavior[validator] == proof_value
            &&& backward.misbehavior.contains_key(validator)
            &&& backward.misbehavior[validator] == proof_value
        }),
{
}

/// Unauthorized proposal detection: a proposal from outside the signer's
/// group is proven unauthorized and mutates nothing else.
pub proof fn lemma_unauthorized_proposal_detected<C: Context>(
    context: &C,
    t: TableModel,
    validator: ValidatorId,
    candidate: Candidate,
    signature: Signature,
)
    requires
        ({
            let s = SignedStatement { statement: Statement::Candidate(candidate), signature };
            context.spec_statement_signer(s) == Some(validator)
        }),
        !context.spec_is_member_of(validator, context.spec_candidate_group(candidate)),
    ensures
        ({
            let s = SignedStatement { statement: Statement::Candidate(candidate), signature };
            let t1 = import_result(context, t, s);
            &&& t1.proposed == t.proposed
            &&& t1.candidates == t.candidates
            &&& t1.misbehavior == t.misbehavior.insert(
                validator,
                Misbehavior::UnauthorizedStatement(UnauthorizedStatement { statement: s }),
            )
        }),
{
}

/// Unauthorized validity-vote detection: a validity or invalidity vote on a
/// known digest from outside the candidate's group is proven unauthorized,
/// wrapping the statement variant that matches the vote's flag, and mutates
/// nothing else.
pub proof fn lemma_unauthorized_validity_vote_detected<C: Context>(
    context: &C,
    t: TableModel,
    validator: ValidatorId,
    digest: Digest,
    valid: bool,
    signature: Signature,
)
    requires
        t.candidates.contains_key(digest),
        !context.spec_is_member_of(validator, t.candidates[digest].group_id),
        ({
            let s = SignedStatement {
                statement: if valid {
                    Statement::Valid(digest)
                } else {
                    Statement::Invalid(digest)
                },
                signature,
            };
            context.spec_statement_signer(s) == Some(validator)
        }),
    ensures
        ({
            let s = SignedStatement {
                statement: if valid {
                    Statement::Valid(digest)
                } else {
                    Statement::Invalid(digest)
                },
                signature,
            };
            let t1 = import_result(context, t, s);
            &&& t1.proposed == t.proposed
            &&& t1.candidates == t.candidates
            &&& t1.misbehavior == t.misbehavior.insert(
                validator,
                Misbehavior::UnauthorizedStatement(UnauthorizedStatement { statement: s }),
            )
        }),
{
}

/// Unauthorized availability-vote detection: an availability vote on a known
/// digest from a validator that is not an availability guarantor of the
/// candidate's group is proven unauthorized and mutates nothing else.
pub proof fn lemma_unauthorized_availability_vote_detected<C: Context>(
    context: &C,
    t: TableModel,
    validator: ValidatorId,
    digest: Digest,
    signature: Signature,
)
    requires
        t.candidates.contains_key(digest),
        !context.spec_is_availability_guarantor_of(validator, t.candidates[digest].group_id),
        ({
            let s = SignedStatement { statement: Statement::Available(digest), signature };
            context.spec_statement_signer(s) == Some(validator)
        }),
    ensures
        ({
            let s = SignedStatement { statement: Statement::Available(digest), signature };
            let t1 = import_result(context, t, s);
            &&& t1.proposed == t.proposed
            &&& t1.candidates == t.candidates
            &&& t1.misbehavior == t.misbehavior.insert(
                validator,
                Misbehavior::UnauthorizedStatement(UnauthorizedStatement { statement: s }),
            )
        }),
{
}

/// Drop on unknown digest: a validity, invalidity or availability statement
/// on a digest the table has no ledger for changes nothing at all, whoever
/// signed it.
pub proof fn lemma_unknown_digest_dropped<C: Context>(
    context: &C,
    t: TableModel,
    statement: SignedStatement,
)
    requires
        (match statement.statement {
            Statement::Candidate(_) => false,
            Statement::Valid(digest) => !t.candidates.contains_key(digest),
            Statement::Available(digest) => !t.candidates.contains_key(digest),
            Statement::Invalid(digest) => !t.candidates.contains_key(digest),
        }),
    ensures
        import_result(context, t, statement) == t,
{
}

/// Non-cumulative punishment: when two statements in sequence each yield a
/// misbehavior proof for one validator, only the most recent proof is
/// retained.
pub proof fn lemma_punishment_not_cumulative<C: Context>(
    context: &C,
    t: TableModel,
    first: SignedStatement,
    second: SignedStatement,
    validator: ValidatorId,
    first_proof: Misbehavior,
    second_proof: Misbehavior,
)
    requires
        context.spec_statement_signer(first) == Some(validator),
        context.spec_statement_signer(second) == Some(validator),
        import_step(context, t, first).1 == Some(first_proof),
        import_step(context, import_result(context, t, first), second).1 == Some(second_proof),
    ensures
        ({
            let t2 = import_result(context, import_result(context, t, first), second);
            t2.misbehavior.contains_key(validator) && t2.misbehavior[validator] == second_proof
        }),
{
}

} // verus!
