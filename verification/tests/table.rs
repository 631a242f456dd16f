//! Behavior of the statement table through its public interface, driven by
//! a roster-backed context. Under the roster context a statement's signer is
//! its signature modulo 1000, a candidate's digest is its body, and its
//! group is the group it is submitted for.
use statement_table::create;
use statement_table::Candidate;
use statement_table::Misbehavior;
use statement_table::MultipleCandidates;
use statement_table::RosterContext;
use statement_table::SignedStatement;
use statement_table::Statement;
use statement_table::UnauthorizedStatement;
use statement_table::ValidityDoubleVote;

fn propose(group: u64, body: u64, signature: u64) -> SignedStatement {
    SignedStatement { statement: Statement::Candidate(Candidate { group, body }), signature }
}

fn valid(digest: u64, signature: u64) -> SignedStatement {
    SignedStatement { statement: Statement::Valid(digest), signature }
}

fn invalid(digest: u64, signature: u64) -> SignedStatement {
    SignedStatement { statement: Statement::Invalid(digest), signature }
}

fn available(digest: u64, signature: u64) -> SignedStatement {
    SignedStatement { statement: Statement::Available(digest), signature }
}

#[test]
fn submitting_two_candidates_is_misbehavior() {
    let context = RosterContext::new(vec![(1, 2, 455)]);
    let mut table = create();
    let statement_a = propose(2, 100, 1);
    let statement_b = propose(2, 999, 1);

    table.import_statement(&context, statement_a);
    assert!(table.misbehavior_of(1).is_none());

    table.import_statement(&context, statement_b);
    assert_eq!(
        table.misbehavior_of(1).unwrap(),
        Misbehavior::MultipleCandidates(MultipleCandidates {
            first: (Candidate { group: 2, body: 100 }, 1),
            second: (Candidate { group: 2, body: 999 }, 1),
        })
    );
}

#[test]
fn a_default_table_is_empty() {
    let table = statement_table::Table::default();
    assert!(table.misbehaving_validators().is_empty());
    assert!(table.proposal_of(1).is_none());
    assert!(!table.has_candidate(100));
}

#[test]
fn first_proposal_is_retained_on_equivocation() {
    let context = RosterContext::new(vec![(1, 2, 455)]);
    let mut table = create();
    table.import_statement(&context, propose(2, 100, 1));
    table.import_statement(&context, propose(2, 999, 1));

    assert_eq!(table.proposal_of(1), Some((100, 1)));
    assert!(table.has_candidate(100));
    assert!(!table.has_candidate(999));
}

#[test]
fn proposing_twice_identically_is_tolerated() {
    let context = RosterContext::new(vec![(1, 2, 455)]);
    let mut table = create();
    let statement = propose(2, 100, 1);

    table.import_statement(&context, statement);
    table.import_statement(&context, statement);

    assert!(table.misbehavior_of(1).is_none());
    assert_eq!(table.proposal_of(1), Some((100, 1)));
    assert!(table.has_candidate(100));
    assert_eq!(table.candidate_of(100), Some(Candidate { group: 2, body: 100 }));
    assert_eq!(table.group_of(100), Some(2));
    assert_eq!(table.validity_vote_count(100), 0);
    assert_eq!(table.availability_vote_count(100), 0);
}

#[test]
fn double_validity_vote_is_misbehavior() {
    let context = RosterContext::new(vec![(1, 2, 455)]);
    let mut table = create();
    table.import_statement(&context, propose(2, 100, 1));
    table.import_statement(&context, valid(100, 1001));
    assert!(table.misbehavior_of(1).is_none());

    table.import_statement(&context, invalid(100, 2001));
    assert_eq!(
        table.misbehavior_of(1).unwrap(),
        Misbehavior::ValidityDoubleVote(ValidityDoubleVote {
            digest: 100,
            t_signature: 1001,
            f_signature: 2001,
        })
    );
    // the first vote wins; the contradictory one is proven, not recorded.
    assert_eq!(table.validity_vote_of(100, 1), Some((true, 1001)));
    assert_eq!(table.validity_vote_count(100), 1);
}

#[test]
fn double_validity_vote_order_does_not_matter() {
    let context = RosterContext::new(vec![(1, 2, 455)]);
    let mut table = create();
    table.import_statement(&context, propose(2, 100, 1));
    table.import_statement(&context, invalid(100, 2001));
    table.import_statement(&context, valid(100, 1001));

    // the true-vote signature lands in the first slot whatever the order.
    assert_eq!(
        table.misbehavior_of(1).unwrap(),
        Misbehavior::ValidityDoubleVote(ValidityDoubleVote {
            digest: 100,
            t_signature: 1001,
            f_signature: 2001,
        })
    );
    assert_eq!(table.validity_vote_of(100, 1), Some((false, 2001)));
}

#[test]
fn duplicate_validity_vote_is_tolerated() {
    let context = RosterContext::new(vec![(1, 2, 455)]);
    let mut table = create();
    table.import_statement(&context, propose(2, 100, 1));
    table.import_statement(&context, valid(100, 1001));
    table.import_statement(&context, valid(100, 1001));

    assert!(table.misbehavior_of(1).is_none());
    assert_eq!(table.validity_vote_count(100), 1);
    assert_eq!(table.validity_vote_of(100, 1), Some((true, 1001)));
}

#[test]
fn unauthorized_proposal_is_misbehavior() {
    let context = RosterContext::new(vec![(1, 2, 455)]);
    let mut table = create();
    let statement = propose(7, 100, 1);
    table.import_statement(&context, statement);

    assert_eq!(
        table.misbehavior_of(1).unwrap(),
        Misbehavior::UnauthorizedStatement(UnauthorizedStatement { statement })
    );
    assert!(table.proposal_of(1).is_none());
    assert!(!table.has_candidate(100));
}

#[test]
fn unauthorized_validity_vote_is_misbehavior() {
    let context = RosterContext::new(vec![(1, 2, 455), (9, 7, 8)]);
    let mut table = create();
    table.import_statement(&context, propose(2, 100, 1));

    let vote = valid(100, 9);
    table.import_statement(&context, vote);
    assert_eq!(
        table.misbehavior_of(9).unwrap(),
        Misbehavior::UnauthorizedStatement(UnauthorizedStatement { statement: vote })
    );
    assert!(table.validity_vote_of(100, 9).is_none());
    assert_eq!(table.validity_vote_count(100), 0);

    // the wrapped statement matches the vote's flag.
    let counter_vote = invalid(100, 1009);
    table.import_statement(&context, counter_vote);
    assert_eq!(
        table.misbehavior_of(9).unwrap(),
        Misbehavior::UnauthorizedStatement(UnauthorizedStatement { statement: counter_vote })
    );
    assert_eq!(table.validity_vote_count(100), 0);
}

#[test]
fn unauthorized_availability_vote_is_misbehavior() {
    let context = RosterContext::new(vec![(1, 2, 455), (5, 0, 2)]);
    let mut table = create();
    table.import_statement(&context, propose(2, 100, 1));

    // validator 5 is an availability guarantor of group 2; validator 1 is
    // not.
    table.import_statement(&context, available(100, 5));
    assert!(table.misbehavior_of(5).is_none());
    assert!(table.has_availability_vote(100, 5));

    let vote = available(100, 1);
    table.import_statement(&context, vote);
    assert_eq!(
        table.misbehavior_of(1).unwrap(),
        Misbehavior::UnauthorizedStatement(UnauthorizedStatement { statement: vote })
    );
    assert!(!table.has_availability_vote(100, 1));
    assert_eq!(table.availability_vote_count(100), 1);
}

#[test]
fn votes_on_unknown_digests_are_dropped() {
    let context = RosterContext::new(vec![(1, 2, 455), (5, 0, 2)]);
    let mut table = create();

    table.import_statement(&context, valid(100, 1));
    table.import_statement(&context, invalid(100, 1001));
    table.import_statement(&context, available(100, 5));

    assert!(table.misbehavior_of(1).is_none());
    assert!(table.misbehavior_of(5).is_none());
    assert!(!table.has_candidate(100));
    assert_eq!(table.validity_vote_count(100), 0);
    assert_eq!(table.availability_vote_count(100), 0);
}

#[test]
fn punishment_is_not_cumulative() {
    let context = RosterContext::new(vec![(1, 2, 455)]);
    let mut table = create();
    table.import_statement(&context, propose(2, 100, 1));
    table.import_statement(&context, propose(2, 999, 1));
    assert!(matches!(table.misbehavior_of(1), Some(Misbehavior::MultipleCandidates(_))));

    // a second kind of misbehavior replaces the recorded proof.
    table.import_statement(&context, valid(100, 1001));
    table.import_statement(&context, invalid(100, 2001));
    assert_eq!(
        table.misbehavior_of(1).unwrap(),
        Misbehavior::ValidityDoubleVote(ValidityDoubleVote {
            digest: 100,
            t_signature: 1001,
            f_signature: 2001,
        })
    );
}

#[test]
fn detected_misbehavior_can_be_enumerated() {
    let context = RosterContext::new(vec![(1, 2, 455), (9, 7, 8)]);
    let mut table = create();
    assert!(table.misbehaving_validators().is_empty());

    table.import_statement(&context, propose(7, 100, 1));
    table.import_statement(&context, propose(2, 200, 9));

    let mut listed = table.misbehaving_validators();
    listed.sort();
    assert_eq!(listed, vec![1, 9]);
}

#[test]
fn availability_votes_have_set_semantics() {
    let context = RosterContext::new(vec![(1, 2, 455), (5, 0, 2)]);
    let mut table = create();
    table.import_statement(&context, propose(2, 100, 1));

    table.import_statement(&context, available(100, 5));
    table.import_statement(&context, available(100, 1005));

    assert!(table.misbehavior_of(5).is_none());
    assert!(table.has_availability_vote(100, 5));
    assert_eq!(table.availability_vote_count(100), 1);
}

#[test]
fn every_first_validity_vote_marks_indicated_bad() {
    let context = RosterContext::new(vec![(1, 2, 455), (21, 2, 0), (22, 2, 0)]);
    let mut table = create();
    table.import_statement(&context, propose(2, 100, 1));

    // the voter is appended on its first vote whatever the vote's flag.
    table.import_statement(&context, valid(100, 21));
    table.import_statement(&context, invalid(100, 22));
    table.import_statement(&context, valid(100, 21));

    assert_eq!(table.indicated_bad_by(100).unwrap(), &vec![21, 22]);
}

#[test]
fn proposing_a_known_candidate_keeps_its_ledger() {
    let context = RosterContext::new(vec![(1, 2, 455), (21, 2, 0), (31, 2, 0)]);
    let mut table = create();
    table.import_statement(&context, propose(2, 100, 1));
    table.import_statement(&context, valid(100, 21));

    // a second validator proposing the same candidate does not reset the
    // accumulated votes.
    table.import_statement(&context, propose(2, 100, 31));

    assert!(table.misbehavior_of(31).is_none());
    assert_eq!(table.proposal_of(31), Some((100, 31)));
    assert_eq!(table.validity_vote_of(100, 21), Some((true, 21)));
    assert_eq!(table.validity_vote_count(100), 1);
}
