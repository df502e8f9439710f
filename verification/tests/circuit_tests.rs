use voting_system::circuit::{self, CircuitError, UserVote, VoteStats};
use voting_system::envelope::{Envelope, EnvelopeError, KeyContext};

fn sealed_stats(yes: u64, no: u64) -> Envelope<VoteStats> {
    Envelope::seal(VoteStats { yes, no }, KeyContext::ComputationOwner)
}

fn sealed_ballot(vote: bool, submitter: u64) -> Envelope<UserVote> {
    Envelope::seal(UserVote { vote }, KeyContext::Shared(submitter))
}

fn open_stats(env: Envelope<VoteStats>) -> VoteStats {
    match env.open(KeyContext::ComputationOwner) {
        Ok(stats) => stats,
        Err(_) => panic!("tally must open under the computation owner's context"),
    }
}

fn accumulate_all(ballots: &[bool]) -> VoteStats {
    let mut tally = circuit::init_vote_stats();
    for (i, &b) in ballots.iter().enumerate() {
        let ballot = sealed_ballot(b, i as u64);
        tally = match circuit::vote(ballot, tally) {
            Ok(t) => t,
            Err(_) => panic!("accumulate must succeed on matching contexts"),
        };
    }
    open_stats(tally)
}

#[test]
fn init_vote_stats_is_zeroed_and_owner_sealed() {
    let env = circuit::init_vote_stats();
    assert!(env.ctx() == KeyContext::ComputationOwner);
    let stats = open_stats(env);
    assert_eq!(stats.yes, 0);
    assert_eq!(stats.no, 0);
}

#[test]
fn accumulate_counts_yes_and_no() {
    let stats = accumulate_all(&[true, false, true, true, false]);
    assert_eq!(stats.yes, 3);
    assert_eq!(stats.no, 2);
}

#[test]
fn accumulate_is_order_independent() {
    let a = accumulate_all(&[true, true, false, false, true]);
    let b = accumulate_all(&[false, true, false, true, true]);
    let c = accumulate_all(&[true, false, true, true, false]);
    assert_eq!((a.yes, a.no), (3, 2));
    assert_eq!((b.yes, b.no), (3, 2));
    assert_eq!((c.yes, c.no), (3, 2));
}

#[test]
fn accumulate_reseals_under_owner_context() {
    let tally = sealed_stats(1, 1);
    let out = match circuit::vote(sealed_ballot(true, 9), tally) {
        Ok(t) => t,
        Err(_) => panic!("accumulate must succeed"),
    };
    assert!(out.ctx() == KeyContext::ComputationOwner);
    let stats = open_stats(out);
    assert_eq!((stats.yes, stats.no), (2, 1));
}

#[test]
fn reveal_majority_yes() {
    assert_eq!(circuit::reveal_result(sealed_stats(5, 3)), Ok(true));
}

#[test]
fn reveal_majority_no() {
    assert_eq!(circuit::reveal_result(sealed_stats(3, 5)), Ok(false));
}

#[test]
fn reveal_tie_is_false() {
    assert_eq!(circuit::reveal_result(sealed_stats(4, 4)), Ok(false));
}

#[test]
fn vote_rejects_owner_sealed_ballot() {
    let ballot = Envelope::seal(UserVote { vote: true }, KeyContext::ComputationOwner);
    let tally = sealed_stats(0, 0);
    assert!(matches!(circuit::vote(ballot, tally), Err(CircuitError::ForeignCiphertext)));
}

#[test]
fn vote_rejects_shared_sealed_tally() {
    let ballot = sealed_ballot(true, 1);
    let tally = Envelope::seal(VoteStats { yes: 0, no: 0 }, KeyContext::Shared(1));
    assert!(matches!(circuit::vote(ballot, tally), Err(CircuitError::ForeignCiphertext)));
}

#[test]
fn vote_surfaces_counter_overflow() {
    let tally = sealed_stats(u64::MAX, 0);
    assert!(matches!(
        circuit::vote(sealed_ballot(true, 1), tally),
        Err(CircuitError::CounterOverflow)
    ));
    let tally_no = sealed_stats(0, u64::MAX);
    assert!(matches!(
        circuit::vote(sealed_ballot(false, 1), tally_no),
        Err(CircuitError::CounterOverflow)
    ));
}

#[test]
fn reveal_rejects_foreign_context() {
    let tally = Envelope::seal(VoteStats { yes: 9, no: 0 }, KeyContext::Shared(2));
    assert_eq!(circuit::reveal_result(tally), Err(CircuitError::ForeignCiphertext));
}

#[test]
fn envelope_opens_only_with_matching_context() {
    let env = Envelope::seal(7u64, KeyContext::Shared(4));
    assert_eq!(env.open(KeyContext::Shared(5)), Err(EnvelopeError::ForeignCiphertext));
    let env2 = Envelope::seal(7u64, KeyContext::Shared(4));
    assert_eq!(env2.open(KeyContext::Shared(4)), Ok(7u64));
}

#[test]
fn envelope_reseal_moves_context_explicitly() {
    let env = Envelope::seal(3u64, KeyContext::Shared(1));
    let moved = match env.reseal(KeyContext::Shared(1), KeyContext::ComputationOwner) {
        Ok(e) => e,
        Err(_) => panic!("reseal with the matching key must succeed"),
    };
    assert!(moved.ctx() == KeyContext::ComputationOwner);
    assert_eq!(moved.open(KeyContext::ComputationOwner), Ok(3u64));
    let env2 = Envelope::seal(3u64, KeyContext::Shared(1));
    assert!(env2.reseal(KeyContext::ComputationOwner, KeyContext::Shared(2)).is_err());
}
