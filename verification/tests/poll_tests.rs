use voting_system::bridge::{Bridge, CallbackPayload, ComputationCallback};
use voting_system::circuit::{self, UserVote, VoteStats};
use voting_system::envelope::{Envelope, KeyContext};
use voting_system::poll::{
    cast_vote, create_new_poll, init_vote_stats_callback, request_reveal, reveal_result_callback,
    vote_callback, ErrorCode, PollAccount, ReceiptStatus, VotingWindow,
};

// The poll program's identity, the poll authority, and the window used below.
fn program_id() -> u64 {
    1
}

fn authority() -> u64 {
    42
}

fn window() -> VotingWindow {
    VotingWindow { start: 1000, end: 1100 }
}

fn sealed_ballot(vote: bool, submitter: u64) -> Envelope<UserVote> {
    Envelope::seal(UserVote { vote }, KeyContext::Shared(submitter))
}

/// Duplicate a sealed tally the way only the computation owner could: open it
/// and seal the plaintext twice.
fn duplicate_tally(env: Envelope<VoteStats>) -> (Envelope<VoteStats>, Envelope<VoteStats>) {
    let stats = match env.open(KeyContext::ComputationOwner) {
        Ok(s) => s,
        Err(_) => panic!("tally must open under the computation owner's context"),
    };
    (
        Envelope::seal(stats, KeyContext::ComputationOwner),
        Envelope::seal(stats, KeyContext::ComputationOwner),
    )
}

/// A fresh poll with the initialize callback already applied; returns the
/// bridge, the poll and the executor's copy of the sealed tally.
fn new_poll() -> (Bridge, PollAccount, Envelope<VoteStats>) {
    let mut bridge = Bridge::new(program_id());
    let mut poll = match create_new_poll(
        &mut bridge,
        100,
        7,
        authority(),
        String::from("adopt the proposal?"),
        11,
        window(),
    ) {
        Ok(p) => p,
        Err(_) => panic!("poll creation must succeed on a valid window"),
    };
    let (store, payload) = duplicate_tally(circuit::init_vote_stats());
    let cb = match bridge.deliver(100, CallbackPayload::InitVoteStats(payload)) {
        Some(cb) => cb,
        None => panic!("the accepted initialize request must be deliverable"),
    };
    assert!(init_vote_stats_callback(&mut poll, &bridge, cb).is_ok());
    (bridge, poll, store)
}

/// Run one accepted vote's computation and apply its callback; returns the
/// executor's new copy of the sealed tally.
fn settle_vote(
    bridge: &mut Bridge,
    poll: &mut PollAccount,
    tally: Envelope<VoteStats>,
    id: u64,
    vote: bool,
    submitter: u64,
) -> Envelope<VoteStats> {
    let updated = match circuit::vote(sealed_ballot(vote, submitter), tally) {
        Ok(t) => t,
        Err(_) => panic!("accumulate must succeed on matching contexts"),
    };
    let (store, payload) = duplicate_tally(updated);
    let cb = match bridge.deliver(id, CallbackPayload::Vote(payload)) {
        Some(cb) => cb,
        None => panic!("the accepted vote request must be deliverable"),
    };
    assert!(vote_callback(poll, bridge, cb).is_ok());
    store
}

#[test]
fn create_poll_rejects_invalid_window() {
    let mut bridge = Bridge::new(program_id());
    let w = VotingWindow { start: 50, end: 50 };
    match create_new_poll(&mut bridge, 1, 1, authority(), String::new(), 0, w) {
        Err(ErrorCode::InvalidWindow) => {}
        _ => panic!("a window that ends at its start must be rejected"),
    }
    let w2 = VotingWindow { start: 50, end: 40 };
    match create_new_poll(&mut bridge, 1, 1, authority(), String::new(), 0, w2) {
        Err(ErrorCode::InvalidWindow) => {}
        _ => panic!("a window that ends before its start must be rejected"),
    }
}

#[test]
fn create_poll_initializes_record() {
    let (_, poll, store) = new_poll();
    assert_eq!(poll.id, 7);
    assert_eq!(poll.authority, authority());
    assert_eq!(poll.question, "adopt the proposal?");
    assert!(!poll.finalized);
    assert!(poll.outcome.is_none());
    assert_eq!(poll.receipts.len(), 0);
    assert!(poll.tally.is_some());
    let stats = match store.open(KeyContext::ComputationOwner) {
        Ok(s) => s,
        Err(_) => panic!("tally must open"),
    };
    assert_eq!((stats.yes, stats.no), (0, 0));
}

#[test]
fn create_poll_rejects_stale_identifier() {
    let mut bridge = Bridge::new(program_id());
    assert!(create_new_poll(&mut bridge, 5, 1, authority(), String::new(), 0, window()).is_ok());
    match create_new_poll(&mut bridge, 5, 2, authority(), String::new(), 0, window()) {
        Err(ErrorCode::DuplicateIdentifier) => {}
        _ => panic!("a reused computation identifier must be rejected"),
    }
}

#[test]
fn cast_before_start_is_not_started() {
    let (mut bridge, mut poll, _) = new_poll();
    let r = cast_vote(&mut poll, &mut bridge, 200, 9, 9, 1, sealed_ballot(true, 9), 999);
    assert_eq!(r, Err(ErrorCode::VotingNotStarted));
    assert_eq!(poll.receipts.len(), 0);
}

#[test]
fn cast_at_start_is_accepted() {
    let (mut bridge, mut poll, _) = new_poll();
    let r = cast_vote(&mut poll, &mut bridge, 200, 9, 9, 1, sealed_ballot(true, 9), 1000);
    assert_eq!(r, Ok(()));
    assert_eq!(poll.receipts.len(), 1);
    assert_eq!(poll.receipts[0].voter, 9);
    assert_eq!(poll.receipts[0].status, ReceiptStatus::Pending);
}

#[test]
fn cast_at_end_is_time_exceeded() {
    let (mut bridge, mut poll, _) = new_poll();
    let r = cast_vote(&mut poll, &mut bridge, 200, 9, 9, 1, sealed_ballot(true, 9), 1100);
    assert_eq!(r, Err(ErrorCode::TimeExceeded));
    let r2 = cast_vote(&mut poll, &mut bridge, 201, 9, 9, 1, sealed_ballot(true, 9), 1500);
    assert_eq!(r2, Err(ErrorCode::TimeExceeded));
}

#[test]
fn second_vote_is_already_voted() {
    let (mut bridge, mut poll, tally) = new_poll();
    assert_eq!(
        cast_vote(&mut poll, &mut bridge, 200, 9, 9, 1, sealed_ballot(true, 9), 1010),
        Ok(())
    );
    // Before the callback lands.
    assert_eq!(
        cast_vote(&mut poll, &mut bridge, 201, 9, 9, 2, sealed_ballot(false, 9), 1020),
        Err(ErrorCode::AlreadyVoted)
    );
    // And after it has landed.
    let _ = settle_vote(&mut bridge, &mut poll, tally, 200, true, 9);
    assert_eq!(
        cast_vote(&mut poll, &mut bridge, 202, 9, 9, 3, sealed_ballot(false, 9), 1030),
        Err(ErrorCode::AlreadyVoted)
    );
    assert_eq!(poll.receipts.len(), 1);
}

#[test]
fn cast_reuses_no_identifier() {
    let (mut bridge, mut poll, _) = new_poll();
    // The initialize request already took identifier 100.
    let r = cast_vote(&mut poll, &mut bridge, 100, 9, 9, 1, sealed_ballot(true, 9), 1010);
    assert_eq!(r, Err(ErrorCode::DuplicateIdentifier));
    assert_eq!(poll.receipts.len(), 0);
}

#[test]
fn reveal_needs_authority() {
    let (mut bridge, mut poll, _) = new_poll();
    // Inside the window and after it: the requester decides first.
    assert_eq!(
        request_reveal(&mut poll, &mut bridge, 300, 43, 1050),
        Err(ErrorCode::InvalidAuthority)
    );
    assert_eq!(
        request_reveal(&mut poll, &mut bridge, 300, 43, 2000),
        Err(ErrorCode::InvalidAuthority)
    );
}

#[test]
fn reveal_waits_for_window_end() {
    let (mut bridge, mut poll, _) = new_poll();
    assert_eq!(
        request_reveal(&mut poll, &mut bridge, 300, authority(), 1100),
        Err(ErrorCode::WaitTillEndTime)
    );
    assert_eq!(
        request_reveal(&mut poll, &mut bridge, 300, authority(), 1050),
        Err(ErrorCode::WaitTillEndTime)
    );
    assert_eq!(request_reveal(&mut poll, &mut bridge, 300, authority(), 1101), Ok(()));
}

#[test]
fn full_poll_runs_to_majority_yes() {
    let (mut bridge, mut poll, mut tally) = new_poll();
    let votes = [(201u64, 1u64, true), (202, 2, true), (203, 3, true), (204, 4, false), (205, 5, false)];
    for &(id, voter, vote) in votes.iter() {
        assert_eq!(
            cast_vote(&mut poll, &mut bridge, id, voter, voter, 1, sealed_ballot(vote, voter), 1050),
            Ok(())
        );
        tally = settle_vote(&mut bridge, &mut poll, tally, id, vote, voter);
    }
    assert_eq!(poll.receipts.len(), 5);
    for receipt in poll.receipts.iter() {
        assert_eq!(receipt.status, ReceiptStatus::Counted);
    }
    assert_eq!(request_reveal(&mut poll, &mut bridge, 300, authority(), 1101), Ok(()));
    let (store, _) = duplicate_tally(tally);
    let revealed = match circuit::reveal_result(store) {
        Ok(b) => b,
        Err(_) => panic!("reveal must succeed on the owner-sealed tally"),
    };
    assert!(revealed);
    let cb = match bridge.deliver(300, CallbackPayload::RevealResult(revealed)) {
        Some(cb) => cb,
        None => panic!("the accepted reveal request must be deliverable"),
    };
    assert_eq!(reveal_result_callback(&mut poll, &bridge, cb), Ok(()));
    assert!(poll.finalized);
    assert_eq!(poll.outcome, Some(true));
    assert_eq!(poll.receipts.len(), 5);
    // Once finalized, nothing moves: a vote and a second reveal are refused.
    assert_eq!(
        cast_vote(&mut poll, &mut bridge, 400, 6, 6, 1, sealed_ballot(true, 6), 1050),
        Err(ErrorCode::Finalized)
    );
    assert_eq!(
        request_reveal(&mut poll, &mut bridge, 401, authority(), 1200),
        Err(ErrorCode::Finalized)
    );
}

#[test]
fn replayed_success_callback_changes_nothing() {
    let (mut bridge, mut poll, tally) = new_poll();
    assert_eq!(
        cast_vote(&mut poll, &mut bridge, 200, 9, 9, 1, sealed_ballot(true, 9), 1010),
        Ok(())
    );
    let updated = match circuit::vote(sealed_ballot(true, 9), tally) {
        Ok(t) => t,
        Err(_) => panic!("accumulate must succeed"),
    };
    let (first, second) = duplicate_tally(updated);
    let cb = match bridge.deliver(200, CallbackPayload::Vote(first)) {
        Some(cb) => cb,
        None => panic!("must deliver"),
    };
    assert_eq!(vote_callback(&mut poll, &bridge, cb), Ok(()));
    let applied_before = poll.applied.len();
    let receipts_before = poll.receipts.len();
    // The bridge refuses a second delivery of the same identifier...
    assert!(bridge.deliver(200, CallbackPayload::Aborted).is_none());
    // ...and even a byte-identical replay is absorbed by the ledger itself.
    let replay = ComputationCallback { id: 200, payload: CallbackPayload::Vote(second) };
    assert_eq!(vote_callback(&mut poll, &bridge, replay), Ok(()));
    assert_eq!(poll.applied.len(), applied_before);
    assert_eq!(poll.receipts.len(), receipts_before);
    assert_eq!(poll.receipts[0].status, ReceiptStatus::Counted);
    let t = match poll.tally.take() {
        Some(t) => t,
        None => panic!("the tally snapshot must be set"),
    };
    let stats = match t.open(KeyContext::ComputationOwner) {
        Ok(s) => s,
        Err(_) => panic!("tally must open"),
    };
    assert_eq!((stats.yes, stats.no), (1, 0));
}

#[test]
fn aborted_vote_fails_receipt_and_allows_retry() {
    let (mut bridge, mut poll, _) = new_poll();
    assert_eq!(
        cast_vote(&mut poll, &mut bridge, 200, 9, 9, 1, sealed_ballot(true, 9), 1010),
        Ok(())
    );
    let cb = match bridge.deliver(200, CallbackPayload::Aborted) {
        Some(cb) => cb,
        None => panic!("must deliver"),
    };
    assert_eq!(vote_callback(&mut poll, &bridge, cb), Err(ErrorCode::AbortedComputation));
    assert_eq!(poll.receipts.len(), 1);
    assert_eq!(poll.receipts[0].status, ReceiptStatus::Failed);
    // The voter was never counted, so a retry is accepted — over the same
    // receipt slot, never a second one.
    assert_eq!(
        cast_vote(&mut poll, &mut bridge, 201, 9, 9, 2, sealed_ballot(true, 9), 1020),
        Ok(())
    );
    assert_eq!(poll.receipts.len(), 1);
    assert_eq!(poll.receipts[0].status, ReceiptStatus::Pending);
    assert_eq!(poll.receipts[0].request_id, 201);
}

#[test]
fn callback_under_unknown_identifier_is_refused() {
    let (mut bridge, mut poll, _) = new_poll();
    assert_eq!(request_reveal(&mut poll, &mut bridge, 300, authority(), 1101), Ok(()));
    let cb = match bridge.deliver(300, CallbackPayload::RevealResult(true)) {
        Some(cb) => cb,
        None => panic!("must deliver"),
    };
    // The reveal's callback reaches the vote handler: no receipt waits for it.
    assert_eq!(vote_callback(&mut poll, &bridge, cb), Err(ErrorCode::UnknownIdentifier));
    assert!(!poll.finalized);
}

#[test]
fn callback_with_unexpected_payload_is_refused() {
    let (mut bridge, mut poll, _) = new_poll();
    assert_eq!(
        cast_vote(&mut poll, &mut bridge, 200, 9, 9, 1, sealed_ballot(true, 9), 1010),
        Ok(())
    );
    let cb = match bridge.deliver(200, CallbackPayload::RevealResult(true)) {
        Some(cb) => cb,
        None => panic!("must deliver"),
    };
    assert_eq!(vote_callback(&mut poll, &bridge, cb), Err(ErrorCode::UnexpectedPayload));
    assert_eq!(poll.receipts[0].status, ReceiptStatus::Pending);
}

#[test]
fn aborted_reveal_leaves_poll_open_for_retry() {
    let (mut bridge, mut poll, tally) = new_poll();
    assert_eq!(request_reveal(&mut poll, &mut bridge, 300, authority(), 1101), Ok(()));
    let cb = match bridge.deliver(300, CallbackPayload::Aborted) {
        Some(cb) => cb,
        None => panic!("must deliver"),
    };
    assert_eq!(
        reveal_result_callback(&mut poll, &bridge, cb),
        Err(ErrorCode::AbortedComputation)
    );
    assert!(!poll.finalized);
    assert!(poll.outcome.is_none());
    // A second request is accepted and can finalize.
    assert_eq!(request_reveal(&mut poll, &mut bridge, 301, authority(), 1102), Ok(()));
    let (store, _) = duplicate_tally(tally);
    let revealed = match circuit::reveal_result(store) {
        Ok(b) => b,
        Err(_) => panic!("reveal must succeed"),
    };
    let cb2 = match bridge.deliver(301, CallbackPayload::RevealResult(revealed)) {
        Some(cb) => cb,
        None => panic!("must deliver"),
    };
    assert_eq!(reveal_result_callback(&mut poll, &bridge, cb2), Ok(()));
    assert!(poll.finalized);
    assert_eq!(poll.outcome, Some(false));
}

#[test]
fn aborted_initialize_is_surfaced() {
    let mut bridge = Bridge::new(program_id());
    let mut poll = match create_new_poll(&mut bridge, 100, 7, authority(), String::new(), 0, window())
    {
        Ok(p) => p,
        Err(_) => panic!("poll creation must succeed"),
    };
    let cb = match bridge.deliver(100, CallbackPayload::Aborted) {
        Some(cb) => cb,
        None => panic!("must deliver"),
    };
    assert_eq!(
        init_vote_stats_callback(&mut poll, &bridge, cb),
        Err(ErrorCode::AbortedComputation)
    );
    assert!(poll.tally.is_none());
    // The identifier is settled: a replay is absorbed.
    let replay = ComputationCallback { id: 100, payload: CallbackPayload::Aborted };
    assert_eq!(init_vote_stats_callback(&mut poll, &bridge, replay), Ok(()));
}

#[test]
fn reveal_callback_with_unexpected_payload_is_refused() {
    let (mut bridge, mut poll, _) = new_poll();
    assert_eq!(request_reveal(&mut poll, &mut bridge, 300, authority(), 1101), Ok(()));
    // A vote payload reaches the reveal handler under the awaited identifier:
    // it is refused and the poll stays open for the right callback.
    let cb = match bridge.deliver(300, CallbackPayload::Vote(circuit::init_vote_stats())) {
        Some(cb) => cb,
        None => panic!("must deliver"),
    };
    assert_eq!(
        reveal_result_callback(&mut poll, &bridge, cb),
        Err(ErrorCode::UnexpectedPayload)
    );
    assert!(!poll.finalized);
    assert!(poll.outcome.is_none());
}

#[test]
fn superseded_reveal_callback_is_unknown() {
    let (mut bridge, mut poll, _) = new_poll();
    assert_eq!(request_reveal(&mut poll, &mut bridge, 300, authority(), 1101), Ok(()));
    assert_eq!(request_reveal(&mut poll, &mut bridge, 301, authority(), 1102), Ok(()));
    // The older request's callback arrives after being superseded.
    let cb = match bridge.deliver(300, CallbackPayload::RevealResult(true)) {
        Some(cb) => cb,
        None => panic!("must deliver"),
    };
    assert_eq!(reveal_result_callback(&mut poll, &bridge, cb), Err(ErrorCode::UnknownIdentifier));
    assert!(!poll.finalized);
}
