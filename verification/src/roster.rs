//! A simple table-driven [`Context`]: a roster that assigns each validator
//! the one group it votes validity in and the one group it guarantees
//! availability for. A candidate's group is the group it is submitted for,
//! its digest is its body, and a statement's signer is encoded in the low
//! digits of its signature value, so one validator can issue many distinct
//! signatures.
use crate::statement::Candidate;
use crate::statement::Context;
use crate::statement::Digest;
use crate::statement::GroupId;
use crate::statement::Signature;
use crate::statement::SignedStatement;
use crate::statement::ValidatorId;
use vstd::prelude::*;

verus! {

/// A signature's low digits, below this modulus, name its signer.
pub const SIGNER_MODULUS: u64 = 1000;

/// One roster entry: a validator, the group it is a member of, and the
/// group it is an availability guarantor of.
pub type RosterEntry = (ValidatorId, GroupId, GroupId);

/// The groups the first roster entry for `validator` assigns it, if any:
/// the membership group and the availability group.
pub open spec fn groups_of_roster(roster: Seq<RosterEntry>, validator: ValidatorId) -> Option<
    (GroupId, GroupId),
>
    decreases roster.len(),
{
    if roster.len() == 0 {
        None
    } else if roster[0].0 == validator {
        Some((roster[0].1, roster[0].2))
    } else {
        groups_of_roster(roster.drop_first(), validator)
    }
}

proof fn lemma_groups_of_roster_skip(roster: Seq<RosterEntry>, validator: ValidatorId, i: int)
    requires
        0 <= i <= roster.len(),
        forall|j: int| 0 <= j < i ==> (#[trigger] roster[j]).0 != validator,
    ensures
        groups_of_roster(roster, validator) == groups_of_roster(roster.skip(i), validator),
    decreases i,
{
    if i > 0 {
        lemma_groups_of_roster_skip(roster, validator, i - 1);
        assert(roster.skip(i - 1)[0] == roster[i - 1]);
        assert(roster.skip(i - 1).len() > 0);
        assert((roster.skip(i - 1)[0]).0 != validator);
        assert(roster.skip(i - 1).drop_first() =~= roster.skip(i));
        assert(groups_of_roster(roster.skip(i - 1), validator) == groups_of_roster(
            roster.skip(i - 1).drop_first(),
            validator,
        ));
    } else {
        assert(roster.skip(0) =~= roster);
    }
}

/// A context backed by a list of roster entries; for a validator listed more
/// than once, the first entry counts.
pub struct RosterContext {
    roster: Vec<RosterEntry>,
}

impl RosterContext {
    /// The groups this context assigns to `validator`, if any.
    pub closed spec fn groups_of(&self, validator: ValidatorId) -> Option<(GroupId, GroupId)> {
        groups_of_roster(self.roster@, validator)
    }

    /// Build a context from roster entries.
    pub fn new(roster: Vec<RosterEntry>) -> (context: Self)
        ensures
            forall|v: ValidatorId| #[trigger]
                context.groups_of(v) == groups_of_roster(roster@, v),
    {
        RosterContext { roster }
    }

    fn lookup(&self, validator: ValidatorId) -> (r: Option<(GroupId, GroupId)>)
        ensures
            r == self.groups_of(validator),
    {
        let n = self.roster.len();
        let mut idx: usize = 0;
        while idx < n
            invariant
                n == self.roster.len(),
                idx <= n,
                forall|j: int| 0 <= j < idx ==> (#[trigger] self.roster@[j]).0 != validator,
            decreases n - idx,
        {
            let entry = self.roster[idx];
            if entry.0 == validator {
                proof {
                    lemma_groups_of_roster_skip(self.roster@, validator, idx as int);
                    assert(self.roster@.skip(idx as int)[0] == self.roster@[idx as int]);
                }
                return Some((entry.1, entry.2));
            }
            idx += 1;
        }
        proof {
            lemma_groups_of_roster_skip(self.roster@, validator, n as int);
            assert(self.roster@.skip(n as int) =~= Seq::<RosterEntry>::empty());
        }
        None
    }
}

impl Context for RosterContext {
    open spec fn spec_candidate_digest(&self, candidate: Candidate) -> Digest {
        candidate.body
    }

    open spec fn spec_candidate_group(&self, candidate: Candidate) -> GroupId {
        candidate.group
    }

    open spec fn spec_is_member_of(&self, validator: ValidatorId, group: GroupId) -> bool {
        match self.groups_of(validator) {
            Some(groups) => groups.0 == group,
            None => false,
        }
    }

    open spec fn spec_is_availability_guarantor_of(
        &self,
        validator: ValidatorId,
        group: GroupId,
    ) -> bool {
        match self.groups_of(validator) {
            Some(groups) => groups.1 == group,
            None => false,
        }
    }

    open spec fn spec_statement_signer(&self, statement: SignedStatement) -> Option<ValidatorId> {
        Some(statement.signature % SIGNER_MODULUS)
    }

    fn candidate_digest(&self, candidate: &Candidate) -> (digest: Digest) {
        candidate.body
    }

    fn candidate_group(&self, candidate: &Candidate) -> (group: GroupId) {
        candidate.group
    }

    fn is_member_of(&self, validator: &ValidatorId, group: &GroupId) -> (r: bool) {
        match self.lookup(*validator) {
            Some(groups) => groups.0 == *group,
            None => false,
        }
    }

    fn is_availability_guarantor_of(&self, validator: &ValidatorId, group: &GroupId) -> (r: bool) {
        match self.lookup(*validator) {
            Some(groups) => groups.1 == *group,
            None => false,
        }
    }

    fn statement_signer(&self, statement: &SignedStatement) -> (r: Option<ValidatorId>) {
        Some(statement.signature % SIGNER_MODULUS)
    }
}

} // verus!
