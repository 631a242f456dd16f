//! The statement table: the stateful engine that owns all per-validator and
//! per-candidate state, ingests signed statements one at a time, and is the
//! sole place where misbehavior is detected and recorded.
//!
//! Every mutation is proved to follow the specification-level transition in
//! [`crate::model`] exactly.
use crate::keymap::KeyMap;
use crate::keymap::KeySet;
use crate::misbehavior::Misbehavior;
use crate::misbehavior::MultipleCandidates;
use crate::misbehavior::UnauthorizedStatement;
use crate::misbehavior::ValidityDoubleVote;
use crate::model::availability_step;
use crate::model::import_result;
use crate::model::proposal_step;
use crate::model::validity_step;
use crate::model::CandidateModel;
use crate::model::TableModel;
use crate::statement::Candidate;
use crate::statement::Context;
use crate::statement::Digest;
use crate::statement::GroupId;
use crate::statement::Signature;
use crate::statement::SignedStatement;
use crate::statement::Statement;
use crate::statement::ValidatorId;
use vstd::prelude::*;

verus! {

// Votes on a specific candidate.
struct CandidateData {
    group_id: GroupId,
    candidate: Candidate,
    validity_votes: KeyMap<(bool, Signature)>,
    availability_votes: KeySet,
    indicated_bad_by: Vec<ValidatorId>,
}

impl CandidateData {
    spec fn wf(&self) -> bool {
        self.validity_votes.wf() && self.availability_votes.wf()
    }

    spec fn as_model(&self) -> CandidateModel {
        CandidateModel {
            group_id: self.group_id,
            candidate: self.candidate,
            validity: self.validity_votes@,
            availability: self.availability_votes@,
            indicated_bad: self.indicated_bad_by@,
        }
    }
}

spec fn candidates_model(m: Map<u64, CandidateData>) -> Map<Digest, CandidateModel> {
    Map::new(|d: Digest| m.contains_key(d), |d: Digest| m[d].as_model())
}

proof fn lemma_candidates_model_insert(m: Map<u64, CandidateData>, d: Digest, data: CandidateData)
    ensures
        candidates_model(m.insert(d, data)) == candidates_model(m).insert(d, data.as_model()),
{
    assert(candidates_model(m.insert(d, data)) =~= candidates_model(m).insert(
        d,
        data.as_model(),
    ));
}

/// Stores votes: the one candidate each validator has proposed, the vote
/// ledger of every candidate seen, and the most recent misbehavior proof
/// recorded per validator.
pub struct Table {
    proposed_candidates: KeyMap<(Digest, Signature)>,
    detected_misbehavior: KeyMap<Misbehavior>,
    candidate_votes: KeyMap<CandidateData>,
}

impl Table {
    /// Well-formedness: the containers hold their invariants, every ledger
    /// does, and every recorded proposal's digest has a ledger.
    pub closed spec fn wf(&self) -> bool {
        &&& self.proposed_candidates.wf()
        &&& self.detected_misbehavior.wf()
        &&& self.candidate_votes.wf()
        &&& (forall|d: Digest| #[trigger]
            self.candidate_votes@.contains_key(d) ==> self.candidate_votes@[d].wf())
        &&& (forall|v: ValidatorId| #[trigger]
            self.proposed_candidates@.contains_key(v) ==> self.candidate_votes@.contains_key(
                self.proposed_candidates@[v].0,
            ))
    }

    pub closed spec fn as_model(&self) -> TableModel {
        TableModel {
            proposed: self.proposed_candidates@,
            misbehavior: self.detected_misbehavior@,
            candidates: candidates_model(self.candidate_votes@),
        }
    }

    /// A well-formed table's model satisfies the model-level invariant.
    pub proof fn lemma_wf_implies_inv(&self)
        requires
            self.wf(),
        ensures
            self@.inv(),
    {
    }
}

impl View for Table {
    type V = TableModel;

    open spec fn view(&self) -> TableModel {
        self.as_model()
    }
}

impl Default for Table {
    /// An empty statement table.
    fn default() -> (table: Self)
        ensures
            table.wf(),
            table@ == TableModel::empty(),
    {
        create()
    }
}

/// Create a new, empty statement table.
pub fn create() -> (table: Table)
    ensures
        table.wf(),
        table@ == TableModel::empty(),
{
    let table = Table {
        proposed_candidates: KeyMap::new(),
        detected_misbehavior: KeyMap::new(),
        candidate_votes: KeyMap::new(),
    };
    proof {
        assert(candidates_model(table.candidate_votes@) =~= Map::<Digest, CandidateModel>::empty());
        assert(table@ =~~= TableModel::empty());
    }
    table
}

impl Table {
    /// Import a signed statement. Drops it whole when the signer cannot be
    /// recovered; otherwise applies it and records any detected misbehavior
    /// under the signer, replacing an earlier record.
    pub fn import_statement<C: Context>(&mut self, context: &C, statement: SignedStatement)
        requires
            old(self).wf(),
        ensures
            final(self).wf(),
            final(self)@ == import_result(context, old(self)@, statement),
    {
        let signer_opt = context.statement_signer(&statement);
        let signer = match signer_opt {
            None => {
                return;
            },
            Some(signer) => signer,
        };
        let maybe_misbehavior = match statement.statement {
            Statement::Candidate(candidate) => self.import_candidate(
                context,
                signer,
                candidate,
                statement.signature,
            ),
            Statement::Valid(digest) => self.validity_vote(
                context,
                signer,
                digest,
                true,
                statement.signature,
            ),
            Statement::Invalid(digest) => self.validity_vote(
                context,
                signer,
                digest,
                false,
                statement.signature,
            ),
            Statement::Available(digest) => self.availability_vote(
                context,
                signer,
                digest,
                statement.signature,
            ),
        };
        match maybe_misbehavior {
            Some(misbehavior) => {
                // all misbehavior in agreement is provable and actively
                // malicious. punishments are not cumulative.
                self.detected_misbehavior.insert(signer, misbehavior);
                proof {
                    assert(self@ =~~= import_result(context, old(self)@, statement));
                }
            },
            None => {},
        }
    }

    fn import_candidate<C: Context>(
        &mut self,
        context: &C,
        from: ValidatorId,
        candidate: Candidate,
        signature: Signature,
    ) -> (r: Option<Misbehavior>)
        requires
            old(self).wf(),
        ensures
            final(self).wf(),
            ({
                let stepped = proposal_step(context, old(self)@, from, candidate, signature);
                final(self)@ == stepped.0 && r == stepped.1
            }),
    {
        let group = context.candidate_group(&candidate);
        if !context.is_member_of(&from, &group) {
            return Some(
                Misbehavior::UnauthorizedStatement(
                    UnauthorizedStatement {
                        statement: SignedStatement {
                            statement: Statement::Candidate(candidate),
                            signature,
                        },
                    },
                ),
            );
        }
        // check that the validator hasn't already specified another
        // candidate.
        let digest = context.candidate_digest(&candidate);
        let previous = self.proposed_candidates.get(from);
        match previous {
            Some(entry) => {
                // if the digest is different, fetch the candidate and note
                // misbehavior.
                let old_digest = entry.0;
                let old_signature = entry.1;
                if old_digest != digest {
                    // a recorded proposal always has a ledger, so the lookup
                    // cannot fail.
                    let ledger = self.candidate_votes.get(old_digest);
                    let old_candidate = ledger.unwrap().candidate;
                    Some(
                        Misbehavior::MultipleCandidates(
                            MultipleCandidates {
                                first: (old_candidate, old_signature),
                                second: (candidate, signature),
                            },
                        ),
                    )
                } else {
                    None
                }
            },
            None => {
                self.proposed_candidates.insert(from, (digest, signature));
                if !self.candidate_votes.contains_key(digest) {
                    let data = CandidateData {
                        group_id: group,
                        candidate,
                        validity_votes: KeyMap::new(),
                        availability_votes: KeySet::new(),
                        indicated_bad_by: Vec::new(),
                    };
                    proof {
                        lemma_candidates_model_insert(self.candidate_votes@, digest, data);
                        assert(data.as_model() =~~= CandidateModel::fresh(group, candidate));
                    }
                    self.candidate_votes.insert(digest, data);
                }
                proof {
                    let stepped = proposal_step(context, old(self)@, from, candidate, signature);
                    assert(self@ =~~= stepped.0);
                }
                None
            },
        }
    }

    fn validity_vote<C: Context>(
        &mut self,
        context: &C,
        from: ValidatorId,
        digest: Digest,
        valid: bool,
        signature: Signature,
    ) -> (r: Option<Misbehavior>)
        requires
            old(self).wf(),
        ensures
            final(self).wf(),
            ({
                let stepped = validity_step(context, old(self)@, from, digest, valid, signature);
                final(self)@ == stepped.0 && r == stepped.1
            }),
    {
        let group_id = match self.candidate_votes.get(digest) {
            None => {
                return None;
            },
            Some(data) => data.group_id,
        };
        // check that this validator actually can vote in this group.
        if !context.is_member_of(&from, &group_id) {
            return Some(
                Misbehavior::UnauthorizedStatement(
                    UnauthorizedStatement {
                        statement: SignedStatement {
                            statement: if valid {
                                Statement::Valid(digest)
                            } else {
                                Statement::Invalid(digest)
                            },
                            signature,
                        },
                    },
                ),
            );
        }
        let taken = self.candidate_votes.take(digest);
        let mut data = taken.unwrap();
        let mut result: Option<Misbehavior> = None;
        // check for double votes.
        let recorded = data.validity_votes.get(from);
        match recorded {
            Some(entry) => {
                let old_valid = entry.0;
                let old_signature = entry.1;
                if old_valid != valid {
                    let signatures = if valid {
                        (signature, old_signature)
                    } else {
                        (old_signature, signature)
                    };
                    result = Some(
                        Misbehavior::ValidityDoubleVote(
                            ValidityDoubleVote {
                                digest,
                                t_signature: signatures.0,
                                f_signature: signatures.1,
                            },
                        ),
                    );
                }
            },
            None => {
                data.validity_votes.insert(from, (valid, signature));
                data.indicated_bad_by.push(from);
            },
        }
        let ghost updated = data;
        self.candidate_votes.insert(digest, data);
        proof {
            let stepped = validity_step(context, old(self)@, from, digest, valid, signature);
            assert(self.candidate_votes@ =~= old(self).candidate_votes@.insert(digest, updated));
            lemma_candidates_model_insert(old(self).candidate_votes@, digest, updated);
            assert(self@ =~~= stepped.0);
        }
        result
    }

    fn availability_vote<C: Context>(
        &mut self,
        context: &C,
        from: ValidatorId,
        digest: Digest,
        signature: Signature,
    ) -> (r: Option<Misbehavior>)
        requires
            old(self).wf(),
        ensures
            final(self).wf(),
            ({
                let stepped = availability_step(context, old(self)@, from, digest, signature);
                final(self)@ == stepped.0 && r == stepped.1
            }),
    {
        let group_id = match self.candidate_votes.get(digest) {
            None => {
                return None;
            },
            Some(data) => data.group_id,
        };
        // check that this validator actually can guarantee availability in
        // this group.
        if !context.is_availability_guarantor_of(&from, &group_id) {
            return Some(
                Misbehavior::UnauthorizedStatement(
                    UnauthorizedStatement {
                        statement: SignedStatement {
                            statement: Statement::Available(digest),
                            signature,
                        },
                    },
                ),
            );
        }
        let taken = self.candidate_votes.take(digest);
        let mut data = taken.unwrap();
        data.availability_votes.insert(from);
        let ghost updated = data;
        self.candidate_votes.insert(digest, data);
        proof {
            let stepped = availability_step(context, old(self)@, from, digest, signature);
            assert(self.candidate_votes@ =~= old(self).candidate_votes@.insert(digest, updated));
            lemma_candidates_model_insert(old(self).candidate_votes@, digest, updated);
            assert(self@ =~~= stepped.0);
        }
        None
    }
}

// Read accessors: simple lookups with no side effects, for the caller's
// round-progression logic and for inspection.
impl Table {
    /// The misbehavior proof currently recorded for a validator, if any.
    pub fn misbehavior_of(&self, validator: ValidatorId) -> (r: Option<Misbehavior>)
        requires
            self.wf(),
        ensures
            r == (if self@.misbehavior.contains_key(validator) {
                Some(self@.misbehavior[validator])
            } else {
                None::<Misbehavior>
            }),
    {
        match self.detected_misbehavior.get(validator) {
            Some(misbehavior) => Some(*misbehavior),
            None => None,
        }
    }

    /// The validators a misbehavior proof is currently recorded for, each
    /// exactly once.
    pub fn misbehaving_validators(&self) -> (r: Vec<ValidatorId>)
        requires
            self.wf(),
        ensures
            r@.len() == self@.misbehavior.len(),
            forall|i: int, j: int| 0 <= i < j < r@.len() ==> r@[i] != r@[j],
            forall|v: ValidatorId| #[trigger] self@.misbehavior.contains_key(v) <==> r@.contains(v),
    {
        self.detected_misbehavior.keys()
    }

    /// The digest and signature of the one candidate a validator has
    /// proposed, if any.
    pub fn proposal_of(&self, validator: ValidatorId) -> (r: Option<(Digest, Signature)>)
        requires
            self.wf(),
        ensures
            r == (if self@.proposed.contains_key(validator) {
                Some(self@.proposed[validator])
            } else {
                None::<(Digest, Signature)>
            }),
    {
        match self.proposed_candidates.get(validator) {
            Some(entry) => Some(*entry),
            None => None,
        }
    }

    /// Whether the table holds a vote ledger for a digest.
    pub fn has_candidate(&self, digest: Digest) -> (r: bool)
        requires
            self.wf(),
        ensures
            r == self@.candidates.contains_key(digest),
    {
        self.candidate_votes.contains_key(digest)
    }

    /// The payload of the candidate a digest denotes, if the table has seen
    /// it.
    pub fn candidate_of(&self, digest: Digest) -> (r: Option<Candidate>)
        requires
            self.wf(),
        ensures
            r == (if self@.candidates.contains_key(digest) {
                Some(self@.candidates[digest].candidate)
            } else {
                None::<Candidate>
            }),
    {
        match self.candidate_votes.get(digest) {
            Some(data) => Some(data.candidate),
            None => None,
        }
    }

    /// The group a known candidate belongs to.
    pub fn group_of(&self, digest: Digest) -> (r: Option<GroupId>)
        requires
            self.wf(),
        ensures
            r == (if self@.candidates.contains_key(digest) {
                Some(self@.candidates[digest].group_id)
            } else {
                None::<GroupId>
            }),
    {
        match self.candidate_votes.get(digest) {
            Some(data) => Some(data.group_id),
            None => None,
        }
    }

    /// A validator's recorded validity attestation on a digest: the
    /// vote-is-valid flag and the signature it arrived under.
    pub fn validity_vote_of(&self, digest: Digest, validator: ValidatorId) -> (r: Option<
        (bool, Signature),
    >)
        requires
            self.wf(),
        ensures
            r == (if self@.candidates.contains_key(digest)
                && self@.candidates[digest].validity.contains_key(validator) {
                Some(self@.candidates[digest].validity[validator])
            } else {
                None::<(bool, Signature)>
            }),
    {
        match self.candidate_votes.get(digest) {
            Some(data) => match data.validity_votes.get(validator) {
                Some(vote) => Some(*vote),
                None => None,
            },
            None => None,
        }
    }

    /// How many validators have recorded a validity attestation on a digest.
    pub fn validity_vote_count(&self, digest: Digest) -> (r: usize)
        requires
            self.wf(),
        ensures
            r == (if self@.candidates.contains_key(digest) {
                self@.candidates[digest].validity.len()
            } else {
                0
            }),
    {
        match self.candidate_votes.get(digest) {
            Some(data) => data.validity_votes.len(),
            None => 0,
        }
    }

    /// Whether a validator has attested availability for a digest.
    pub fn has_availability_vote(&self, digest: Digest, validator: ValidatorId) -> (r: bool)
        requires
            self.wf(),
        ensures
            r == (self@.candidates.contains_key(digest)
                && self@.candidates[digest].availability.contains(validator)),
    {
        match self.candidate_votes.get(digest) {
            Some(data) => data.availability_votes.contains(validator),
            None => false,
        }
    }

    /// How many validators have attested availability for a digest.
    pub fn availability_vote_count(&self, digest: Digest) -> (r: usize)
        requires
            self.wf(),
        ensures
            r == (if self@.candidates.contains_key(digest) {
                self@.candidates[digest].availability.len()
            } else {
                0
            }),
    {
        match self.candidate_votes.get(digest) {
            Some(data) => data.availability_votes.len(),
            None => 0,
        }
    }

    /// The validators appended on their first validity vote on a digest, in
    /// order of arrival.
    pub fn indicated_bad_by(&self, digest: Digest) -> (r: Option<&Vec<ValidatorId>>)
        requires
            self.wf(),
        ensures
            (match r {
                Some(list) => self@.candidates.contains_key(digest) && list@
                    == self@.candidates[digest].indicated_bad,
                None => !self@.candidates.contains_key(digest),
            }),
    {
        match self.candidate_votes.get(digest) {
            Some(data) => Some(&data.indicated_bad_by),
            None => None,
        }
    }
}

} // verus!
