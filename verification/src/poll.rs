//! The poll ledger state machine: the durable public record of a poll. It
//! enforces the voting window, the authority check on reveal, and one vote per
//! voter; it issues computation requests through the bridge and applies the
//! callbacks that come back, each at most once.
//!
//! A vote's receipt is two-phase: it is stamped `Pending` in the same step
//! that accepts the vote's computation request, turns `Counted` when the
//! accumulate callback succeeds, and turns `Failed` when that computation
//! aborts. A voter whose receipt is `Pending` or `Counted` can never vote
//! again; a voter whose computation aborted holds a `Failed` receipt and may
//! cast again, so an aborted vote consumes no slot silently.

use vstd::prelude::*;

use crate::bridge::{
    Argument, Bridge, CallbackPayload, ComputationCallback, ComputationRequest, Operation,
};
use crate::circuit::{UserVote, VoteStats};
use crate::envelope::Envelope;

verus! {

/// Every way a ledger operation can be rejected, each with its own name;
/// rejections are synchronous and leave all state untouched, except that an
/// aborted computation is surfaced after its receipt has been settled.
#[derive(Clone, Copy, PartialEq, Eq, Structural, Debug)]
pub enum ErrorCode {
    InvalidWindow,
    Finalized,
    VotingNotStarted,
    TimeExceeded,
    AlreadyVoted,
    InvalidAuthority,
    WaitTillEndTime,
    AbortedComputation,
    DuplicateIdentifier,
    UnknownIdentifier,
    UnexpectedPayload,
}

/// The half-open voting window: casting is allowed at `start` and refused
/// from `end` on.
#[derive(Clone, Copy, PartialEq, Eq, Structural, Debug)]
pub struct VotingWindow {
    pub start: i64,
    pub end: i64,
}

impl VotingWindow {
    /// A window must end after it starts.
    pub open spec fn spec_valid(&self) -> bool {
        self.start < self.end
    }

    /// Is the window open at this moment?
    pub open spec fn spec_is_open(&self, now: i64) -> bool {
        self.start <= now < self.end
    }
}

/// Where a vote's receipt stands: stamped when the vote was accepted, counted
/// when its computation succeeded, failed when that computation aborted.
#[derive(Clone, Copy, PartialEq, Eq, Structural, Debug)]
pub enum ReceiptStatus {
    Pending,
    Counted,
    Failed,
}

/// The durable marker that a voter has cast a vote on this poll, keyed by the
/// identifier of the accumulate request it travelled under.
#[derive(Clone, Copy, PartialEq, Eq, Structural, Debug)]
pub struct VoteReceipt {
    pub voter: u64,
    pub request_id: u64,
    pub status: ReceiptStatus,
}

/// The public record of one poll. The tally snapshot is always sealed; the
/// only plaintext the record ever holds about ballots is the one revealed
/// majority bit, once finalized.
pub struct PollAccount {
    pub id: u32,
    pub authority: u64,
    pub question: String,
    pub nonce: u128,
    pub window: VotingWindow,
    pub tally: Option<Envelope<VoteStats>>,
    pub finalized: bool,
    pub outcome: Option<bool>,
    pub receipts: Vec<VoteReceipt>,
    pub applied: Vec<u64>,
    pub init_request_id: u64,
    pub pending_reveal: Option<u64>,
}

impl PollAccount {
    /// Has this voter a receipt, of whatever status?
    pub open spec fn has_receipt(&self, voter: u64) -> bool {
        exists|i: int| 0 <= i < self.receipts@.len() && self.receipts@[i].voter == voter
    }

    /// The index of this voter's receipt; receipts hold one voter each, so it
    /// is unique when it exists.
    pub open spec fn receipt_index(&self, voter: u64) -> int {
        choose|i: int| 0 <= i < self.receipts@.len() && self.receipts@[i].voter == voter
    }

    /// A receipt that blocks another vote: one stamped or counted. A failed
    /// receipt does not block, so an aborted vote can be cast again.
    pub open spec fn has_blocking_receipt(&self, voter: u64) -> bool {
        exists|i: int|
            0 <= i < self.receipts@.len() && self.receipts@[i].voter == voter
                && !(self.receipts@[i].status is Failed)
    }

    /// Is there a stamped receipt waiting for the callback of this request?
    pub open spec fn has_pending_request(&self, id: u64) -> bool {
        exists|i: int|
            0 <= i < self.receipts@.len() && self.receipts@[i].request_id == id
                && self.receipts@[i].status is Pending
    }

    /// The index of the receipt keyed by this request identifier.
    pub open spec fn request_index(&self, id: u64) -> int {
        choose|i: int| 0 <= i < self.receipts@.len() && self.receipts@[i].request_id == id
    }

    /// Has a callback under this identifier already been applied (or, for an
    /// abort, settled)?
    pub open spec fn has_applied(&self, id: u64) -> bool {
        self.applied@.contains(id)
    }

    /// Every computation identifier this poll has ever seen.
    pub open spec fn knows_id(&self, id: u64) -> bool {
        ||| exists|i: int| 0 <= i < self.receipts@.len() && self.receipts@[i].request_id == id
        ||| id == self.init_request_id
        ||| self.pending_reveal == Some(id)
        ||| self.applied@.contains(id)
    }

    /// Well-formed poll record: a valid window; one receipt per voter; request
    /// identifiers pairwise distinct and distinct from the initialize and
    /// reveal identifiers; the applied list free of repeats; no stamped
    /// receipt, and no awaited reveal, whose callback is already marked
    /// applied; and the finalized flag set exactly when an outcome is on
    /// record.
    pub open spec fn wf(&self) -> bool {
        &&& self.window.spec_valid()
        &&& forall|i: int, j: int|
            #![trigger self.receipts@[i], self.receipts@[j]]
            0 <= i < j < self.receipts@.len() ==> self.receipts@[i].voter
                != self.receipts@[j].voter
        &&& forall|i: int, j: int|
            #![trigger self.receipts@[i], self.receipts@[j]]
            0 <= i < j < self.receipts@.len() ==> self.receipts@[i].request_id
                != self.receipts@[j].request_id
        &&& forall|i: int|
            0 <= i < self.receipts@.len() ==> (#[trigger] self.receipts@[i]).request_id
                != self.init_request_id
        &&& forall|i: int|
            0 <= i < self.receipts@.len() ==> self.pending_reveal != Some(
                (#[trigger] self.receipts@[i]).request_id,
            )
        &&& (self.pending_reveal matches Some(rid) ==> rid != self.init_request_id)
        &&& forall|i: int, j: int|
            #![trigger self.applied@[i], self.applied@[j]]
            0 <= i < j < self.applied@.len() ==> self.applied@[i] != self.applied@[j]
        &&& forall|i: int|
            0 <= i < self.receipts@.len() && (#[trigger] self.receipts@[i]).status is Pending
                ==> !self.applied@.contains(self.receipts@[i].request_id)
        &&& (self.pending_reveal matches Some(rid) ==> !self.applied@.contains(rid))
        &&& (self.finalized <==> self.outcome is Some)
    }

    /// All fields but the receipts agree.
    pub open spec fn same_except_receipts(pre: PollAccount, post: PollAccount) -> bool {
        &&& post.id == pre.id
        &&& post.authority == pre.authority
        &&& post.question == pre.question
        &&& post.nonce == pre.nonce
        &&& post.window == pre.window
        &&& post.tally == pre.tally
        &&& post.finalized == pre.finalized
        &&& post.outcome == pre.outcome
        &&& post.applied@ == pre.applied@
        &&& post.init_request_id == pre.init_request_id
        &&& post.pending_reveal == pre.pending_reveal
    }
}

/// The coupling invariant between a poll and its bridge: every computation
/// identifier the poll has seen went through the bridge. It holds because the
/// poll learns identifiers only by submitting requests and receiving
/// callbacks, and the bridge records both.
pub open spec fn synced(poll: PollAccount, bridge: Bridge) -> bool {
    forall|id: u64| #[trigger] poll.knows_id(id) ==> bridge.spec_is_used(id)
}

/// Find the receipt a voter holds, if any.
fn find_receipt(receipts: &Vec<VoteReceipt>, voter: u64) -> (r: Option<usize>)
    ensures
        match r {
            Some(i) => i < receipts@.len() && receipts@[i as int].voter == voter,
            None => forall|k: int| 0 <= k < receipts@.len() ==> receipts@[k].voter != voter,
        },
{
    let mut i: usize = 0;
    while i < receipts.len()
        invariant
            0 <= i <= receipts@.len(),
            forall|k: int| 0 <= k < i ==> receipts@[k].voter != voter,
        decreases receipts@.len() - i,
    {
        if receipts[i].voter == voter {
            return Some(i);
        }
        i += 1;
    }
    None
}

/// Find the receipt keyed by a request identifier, if any.
fn find_receipt_by_request(receipts: &Vec<VoteReceipt>, id: u64) -> (r: Option<usize>)
    ensures
        match r {
            Some(i) => i < receipts@.len() && receipts@[i as int].request_id == id,
            None => forall|k: int| 0 <= k < receipts@.len() ==> receipts@[k].request_id != id,
        },
{
    let mut i: usize = 0;
    while i < receipts.len()
        invariant
            0 <= i <= receipts@.len(),
            forall|k: int| 0 <= k < i ==> receipts@[k].request_id != id,
        decreases receipts@.len() - i,
    {
        if receipts[i].request_id == id {
            return Some(i);
        }
        i += 1;
    }
    None
}

/// Is this identifier on the applied list?
fn contains_id(ids: &Vec<u64>, id: u64) -> (r: bool)
    ensures
        r == ids@.contains(id),
{
    let mut i: usize = 0;
    while i < ids.len()
        invariant
            0 <= i <= ids@.len(),
            forall|k: int| 0 <= k < i ==> ids@[k] != id,
        decreases ids@.len() - i,
    {
        if ids[i] == id {
            return true;
        }
        i += 1;
    }
    assert(!ids@.contains(id));
    false
}

/// The decision `create_new_poll` makes: a window that ends at or before its
/// start is rejected, then a stale computation identifier; otherwise the poll
/// is created.
pub open spec fn create_poll_outcome(
    bridge: Bridge,
    window: VotingWindow,
    computation_offset: u64,
) -> Result<(), ErrorCode> {
    if !window.spec_valid() {
        Err(ErrorCode::InvalidWindow)
    } else if bridge.spec_is_used(computation_offset) {
        Err(ErrorCode::DuplicateIdentifier)
    } else {
        Ok(())
    }
}

/// Create a poll and queue the initialize computation for its sealed tally
/// under the given fresh identifier. The poll is visible at once, but its
/// tally snapshot stays empty until the initialize callback lands; callers
/// must not read it before then. The authority and the window are fixed here
/// for the poll's whole life.
pub fn create_new_poll(
    bridge: &mut Bridge,
    computation_offset: u64,
    id: u32,
    authority: u64,
    question: String,
    nonce: u128,
    window: VotingWindow,
) -> (r: Result<PollAccount, ErrorCode>)
    requires
        old(bridge).wf(),
    ensures
        final(bridge).wf(),
        match r {
            Ok(_) => create_poll_outcome(*old(bridge), window, computation_offset) is Ok,
            Err(e) => create_poll_outcome(*old(bridge), window, computation_offset) == Err::<
                (),
                ErrorCode,
            >(e),
        },
        r is Err ==> *final(bridge) == *old(bridge),
        r matches Ok(p) ==> {
            &&& p.id == id
            &&& p.authority == authority
            &&& p.question == question
            &&& p.nonce == nonce
            &&& p.window == window
            &&& p.tally is None
            &&& !p.finalized
            &&& p.outcome is None
            &&& p.receipts@.len() == 0
            &&& p.applied@.len() == 0
            &&& p.init_request_id == computation_offset
            &&& p.pending_reveal is None
            &&& p.wf()
            &&& synced(p, *final(bridge))
        },
        r is Ok ==> {
            &&& final(bridge).spec_accepted().len() == old(bridge).spec_accepted().len() + 1
            &&& final(bridge).spec_accepted().last().id == computation_offset
            &&& final(bridge).spec_accepted().last().operation == Operation::InitVoteStats
            &&& final(bridge).spec_delivered() == old(bridge).spec_delivered()
            &&& forall|j: u64| #[trigger]
                final(bridge).spec_is_used(j) <==> old(bridge).spec_is_used(j) || j
                    == computation_offset
        },
{
    if window.end <= window.start {
        return Err(ErrorCode::InvalidWindow);
    }
    let request = ComputationRequest {
        id: computation_offset,
        submitter: bridge.owner(),
        operation: Operation::InitVoteStats,
        args: Vec::new(),
    };
    match bridge.submit(request) {
        Ok(()) => {
            let poll = PollAccount {
                id,
                authority,
                question,
                nonce,
                window,
                tally: None,
                finalized: false,
                outcome: None,
                receipts: Vec::new(),
                applied: Vec::new(),
                init_request_id: computation_offset,
                pending_reveal: None,
            };
            proof {
                assert(final(bridge).spec_is_used(computation_offset)) by {
                    assert(final(bridge).spec_accepted().last().id == computation_offset);
                }
                crate::bridge::lemma_submit_marks_id_used(*old(bridge), *bridge, request);
            }
            Ok(poll)
        },
        Err(_) => Err(ErrorCode::DuplicateIdentifier),
    }
}

/// The decision `cast_vote` makes, in the order the checks run: a finalized
/// poll first, then the window, then the voter's receipt, then the freshness
/// of the computation identifier.
pub open spec fn cast_vote_outcome(
    poll: PollAccount,
    bridge: Bridge,
    voter: u64,
    now: i64,
    computation_offset: u64,
) -> Result<(), ErrorCode> {
    if poll.finalized {
        Err(ErrorCode::Finalized)
    } else if now < poll.window.start {
        Err(ErrorCode::VotingNotStarted)
    } else if now >= poll.window.end {
        Err(ErrorCode::TimeExceeded)
    } else if poll.has_blocking_receipt(voter) {
        Err(ErrorCode::AlreadyVoted)
    } else if bridge.spec_is_used(computation_offset) {
        Err(ErrorCode::DuplicateIdentifier)
    } else {
        Ok(())
    }
}

/// How an accepted vote changes the poll: the voter's receipt is stamped
/// `Pending` under the request's identifier, either over the voter's failed
/// receipt or as a new entry, and nothing else moves.
pub open spec fn cast_vote_ok_rel(
    pre: PollAccount,
    post: PollAccount,
    voter: u64,
    computation_offset: u64,
) -> bool {
    &&& post.receipts@ == if pre.has_receipt(voter) {
        pre.receipts@.update(
            pre.receipt_index(voter),
            (VoteReceipt { voter, request_id: computation_offset, status: ReceiptStatus::Pending }),
        )
    } else {
        pre.receipts@.push(
            (VoteReceipt { voter, request_id: computation_offset, status: ReceiptStatus::Pending }),
        )
    }
    &&& post.has_blocking_receipt(voter)
    &&& post.has_pending_request(computation_offset)
    &&& PollAccount::same_except_receipts(pre, post)
}

/// Cast a vote: validate the poll's state, the window and the voter's
/// receipt, then atomically stamp the receipt and queue the accumulate
/// computation carrying the sealed ballot — both happen or neither. The
/// ballot is consumed here and never stored; the ledger learns its content
/// only as one increment inside the sealed tally.
pub fn cast_vote(
    poll: &mut PollAccount,
    bridge: &mut Bridge,
    computation_offset: u64,
    voter: u64,
    pub_key: u64,
    vote_nonce: u128,
    encrypted_vote: Envelope<UserVote>,
    now: i64,
) -> (r: Result<(), ErrorCode>)
    requires
        old(poll).wf(),
        old(bridge).wf(),
        synced(*old(poll), *old(bridge)),
    ensures
        final(poll).wf(),
        final(bridge).wf(),
        synced(*final(poll), *final(bridge)),
        r == cast_vote_outcome(*old(poll), *old(bridge), voter, now, computation_offset),
        r is Ok ==> cast_vote_ok_rel(*old(poll), *final(poll), voter, computation_offset),
        r is Ok ==> {
            &&& final(bridge).spec_accepted().len() == old(bridge).spec_accepted().len() + 1
            &&& final(bridge).spec_accepted().last().id == computation_offset
            &&& final(bridge).spec_accepted().last().operation == Operation::Vote
            &&& final(bridge).spec_accepted().last().args@.len() == 3
            &&& final(bridge).spec_accepted().last().args@[0] == Argument::ArcisPubkey(pub_key)
            &&& final(bridge).spec_accepted().last().args@[1] == Argument::PlaintextU128(vote_nonce)
            &&& final(bridge).spec_accepted().last().args@[2] == Argument::EncryptedBallot(
                encrypted_vote,
            )
            &&& final(bridge).spec_delivered() == old(bridge).spec_delivered()
            &&& forall|j: u64| #[trigger]
                final(bridge).spec_is_used(j) <==> old(bridge).spec_is_used(j) || j
                    == computation_offset
        },
        r is Err ==> *final(poll) == *old(poll) && *final(bridge) == *old(bridge),
{
    if poll.finalized {
        return Err(ErrorCode::Finalized);
    }
    if now < poll.window.start {
        return Err(ErrorCode::VotingNotStarted);
    }
    if now >= poll.window.end {
        return Err(ErrorCode::TimeExceeded);
    }
    let found = find_receipt(&poll.receipts, voter);
    let blocked = match found {
        Some(i) => match poll.receipts[i].status {
            ReceiptStatus::Failed => false,
            _ => true,
        },
        None => false,
    };
    proof {
        if blocked {
            assert(poll.has_blocking_receipt(voter));
        } else {
            assert(!poll.has_blocking_receipt(voter)) by {
                if poll.has_blocking_receipt(voter) {
                    let j = choose|j: int|
                        0 <= j < poll.receipts@.len() && poll.receipts@[j].voter == voter && !(
                        poll.receipts@[j].status is Failed);
                    match found {
                        Some(i) => {
                            assert(poll.receipts@[i as int].voter == voter);
                            assert(j == i as int);
                        },
                        None => {
                            assert(poll.receipts@[j].voter != voter);
                        },
                    }
                }
            }
        }
    }
    if blocked {
        return Err(ErrorCode::AlreadyVoted);
    }
    let mut args: Vec<Argument> = Vec::new();
    args.push(Argument::ArcisPubkey(pub_key));
    args.push(Argument::PlaintextU128(vote_nonce));
    args.push(Argument::EncryptedBallot(encrypted_vote));
    let request = ComputationRequest {
        id: computation_offset,
        submitter: bridge.owner(),
        operation: Operation::Vote,
        args,
    };
    match bridge.submit(request) {
        Ok(()) => {
            let receipt = VoteReceipt {
                voter,
                request_id: computation_offset,
                status: ReceiptStatus::Pending,
            };
            proof {
                assert(old(poll).knows_id(computation_offset) ==> old(bridge).spec_is_used(
                    computation_offset,
                ));
                assert(!old(poll).knows_id(computation_offset));
                crate::bridge::lemma_submit_marks_id_used(*old(bridge), *bridge, request);
            }
            match found {
                Some(i) => {
                    poll.receipts[i] = receipt;
                    proof {
                        assert(poll.receipts@ == old(poll).receipts@.update(i as int, receipt));
                        assert(old(poll).has_receipt(voter));
                        assert(old(poll).receipt_index(voter) == i as int) by {
                            let j = old(poll).receipt_index(voter);
                            assert(0 <= j < old(poll).receipts@.len() && old(
                                poll,
                            ).receipts@[j].voter == voter);
                            assert(j == i as int);
                        }
                    }
                },
                None => {
                    poll.receipts.push(receipt);
                    proof {
                        assert(!old(poll).has_receipt(voter));
                    }
                },
            }
            proof {
                let post = poll.receipts@;
                let k: int = match found {
                    Some(i) => i as int,
                    None => post.len() - 1,
                };
                assert(post[k] == receipt);
                assert(poll.has_blocking_receipt(voter));
                assert(poll.has_pending_request(computation_offset));
                lemma_cast_vote_preserves_wf(*old(poll), *poll, voter, computation_offset, k);
                assert forall|x: u64| #[trigger] poll.knows_id(x) implies final(bridge).spec_is_used(
                    x,
                ) by {
                    if x != computation_offset {
                        assert(old(poll).knows_id(x)) by {
                            if exists|i: int|
                                0 <= i < poll.receipts@.len() && poll.receipts@[i].request_id
                                    == x {
                                let i = choose|i: int|
                                    0 <= i < poll.receipts@.len() && poll.receipts@[i].request_id
                                        == x;
                                assert(i != k);
                                assert(old(poll).receipts@[i].request_id == x);
                            }
                        }
                        assert(old(bridge).spec_is_used(x));
                        let w = choose|w: int|
                            0 <= w < old(bridge).spec_accepted().len() && old(
                                bridge,
                            ).spec_accepted()[w].id == x;
                        assert(final(bridge).spec_accepted()[w].id == x);
                    } else {
                        assert(final(bridge).spec_accepted().last().id == computation_offset);
                    }
                }
            }
            Ok(())
        },
        Err(_) => Err(ErrorCode::DuplicateIdentifier),
    }
}

/// The decision `request_reveal` makes, in the order the checks run: only the
/// poll's authority may ask, only strictly after the window's end — one grace
/// boundary later than the voting cutoff — and only while no outcome is on
/// record; last, the computation identifier must be fresh.
pub open spec fn request_reveal_outcome(
    poll: PollAccount,
    bridge: Bridge,
    requester: u64,
    now: i64,
    computation_offset: u64,
) -> Result<(), ErrorCode> {
    if requester != poll.authority {
        Err(ErrorCode::InvalidAuthority)
    } else if now <= poll.window.end {
        Err(ErrorCode::WaitTillEndTime)
    } else if poll.finalized {
        Err(ErrorCode::Finalized)
    } else if bridge.spec_is_used(computation_offset) {
        Err(ErrorCode::DuplicateIdentifier)
    } else {
        Ok(())
    }
}

/// How an accepted reveal request changes the poll: the identifier of the
/// awaited reveal callback is recorded, nothing else moves. A newer request
/// supersedes an older unanswered one; the superseded callback is then turned
/// away as unknown.
pub open spec fn request_reveal_ok_rel(
    pre: PollAccount,
    post: PollAccount,
    computation_offset: u64,
) -> bool {
    &&& post.pending_reveal == Some(computation_offset)
    &&& post.receipts@ == pre.receipts@
    &&& post.id == pre.id
    &&& post.authority == pre.authority
    &&& post.question == pre.question
    &&& post.nonce == pre.nonce
    &&& post.window == pre.window
    &&& post.tally == pre.tally
    &&& post.finalized == pre.finalized
    &&& post.outcome == pre.outcome
    &&& post.applied@ == pre.applied@
    &&& post.init_request_id == pre.init_request_id
}

/// Ask for the one-bit majority outcome: allowed only to the poll's authority,
/// only strictly after the voting window has ended, and only once an outcome
/// is not already on record. Queues the reveal computation under the given
/// fresh identifier; the poll finalizes when that callback lands.
pub fn request_reveal(
    poll: &mut PollAccount,
    bridge: &mut Bridge,
    computation_offset: u64,
    requester: u64,
    now: i64,
) -> (r: Result<(), ErrorCode>)
    requires
        old(poll).wf(),
        old(bridge).wf(),
        synced(*old(poll), *old(bridge)),
    ensures
        final(poll).wf(),
        final(bridge).wf(),
        synced(*final(poll), *final(bridge)),
        r == request_reveal_outcome(*old(poll), *old(bridge), requester, now, computation_offset),
        r is Ok ==> request_reveal_ok_rel(*old(poll), *final(poll), computation_offset),
        r is Ok ==> {
            &&& final(bridge).spec_accepted().len() == old(bridge).spec_accepted().len() + 1
            &&& final(bridge).spec_accepted().last().id == computation_offset
            &&& final(bridge).spec_accepted().last().operation == Operation::RevealResult
            &&& final(bridge).spec_delivered() == old(bridge).spec_delivered()
            &&& forall|j: u64| #[trigger]
                final(bridge).spec_is_used(j) <==> old(bridge).spec_is_used(j) || j
                    == computation_offset
        },
        r is Err ==> *final(poll) == *old(poll) && *final(bridge) == *old(bridge),
{
    if requester != poll.authority {
        return Err(ErrorCode::InvalidAuthority);
    }
    if now <= poll.window.end {
        return Err(ErrorCode::WaitTillEndTime);
    }
    if poll.finalized {
        return Err(ErrorCode::Finalized);
    }
    let request = ComputationRequest {
        id: computation_offset,
        submitter: bridge.owner(),
        operation: Operation::RevealResult,
        args: Vec::new(),
    };
    match bridge.submit(request) {
        Ok(()) => {
            proof {
                assert(!old(poll).knows_id(computation_offset));
                crate::bridge::lemma_submit_marks_id_used(*old(bridge), *bridge, request);
            }
            poll.pending_reveal = Some(computation_offset);
            proof {
                assert forall|x: u64| #[trigger] poll.knows_id(x) implies final(bridge).spec_is_used(
                    x,
                ) by {
                    if x != computation_offset {
                        assert(old(poll).knows_id(x));
                        assert(old(bridge).spec_is_used(x));
                        let w = choose|w: int|
                            0 <= w < old(bridge).spec_accepted().len() && old(
                                bridge,
                            ).spec_accepted()[w].id == x;
                        assert(final(bridge).spec_accepted()[w].id == x);
                    } else {
                        assert(final(bridge).spec_accepted().last().id == computation_offset);
                    }
                }
            }
            Ok(())
        },
        Err(_) => Err(ErrorCode::DuplicateIdentifier),
    }
}

/// The decision either callback application makes for a replayed identifier:
/// it is absorbed without effect. The bridge itself never delivers twice; the
/// ledger checks again as defense in depth.
pub open spec fn is_replay(poll: PollAccount, id: u64) -> bool {
    poll.has_applied(id)
}

/// The decision `init_vote_stats_callback` makes.
pub open spec fn init_callback_outcome(poll: PollAccount, cb: ComputationCallback) -> Result<
    (),
    ErrorCode,
> {
    if poll.has_applied(cb.id) {
        Ok(())
    } else if cb.id != poll.init_request_id {
        Err(ErrorCode::UnknownIdentifier)
    } else {
        match cb.payload {
            CallbackPayload::InitVoteStats(_) => Ok(()),
            CallbackPayload::Aborted => Err(ErrorCode::AbortedComputation),
            _ => Err(ErrorCode::UnexpectedPayload),
        }
    }
}

/// Apply the callback of the initialize computation: on success the sealed
/// zeroed tally becomes the poll's snapshot; an abort is surfaced and the
/// identifier is settled either way, so a replay of the same callback has no
/// further effect.
pub fn init_vote_stats_callback(
    poll: &mut PollAccount,
    bridge: &Bridge,
    cb: ComputationCallback,
) -> (r: Result<(), ErrorCode>)
    requires
        old(poll).wf(),
        bridge.wf(),
        synced(*old(poll), *bridge),
        bridge.spec_delivered().contains(cb.id),
    ensures
        final(poll).wf(),
        synced(*final(poll), *bridge),
        r == init_callback_outcome(*old(poll), cb),
        old(poll).has_applied(cb.id) ==> *final(poll) == *old(poll),
        !old(poll).has_applied(cb.id) && cb.id == old(poll).init_request_id && cb.payload
            is InitVoteStats ==> {
            &&& final(poll).tally == Some(cb.payload->InitVoteStats_0)
            &&& final(poll).applied@ == old(poll).applied@.push(cb.id)
            &&& final(poll).receipts@ == old(poll).receipts@
            &&& final(poll).finalized == old(poll).finalized
            &&& final(poll).outcome == old(poll).outcome
            &&& final(poll).pending_reveal == old(poll).pending_reveal
            &&& final(poll).window == old(poll).window
            &&& final(poll).authority == old(poll).authority
        },
        !old(poll).has_applied(cb.id) && cb.id == old(poll).init_request_id && cb.payload
            is Aborted ==> {
            &&& final(poll).tally == old(poll).tally
            &&& final(poll).applied@ == old(poll).applied@.push(cb.id)
            &&& final(poll).receipts@ == old(poll).receipts@
        },
        r is Err ==> *final(poll) == *old(poll) || (cb.payload is Aborted && final(poll).applied@
            == old(poll).applied@.push(cb.id)),
        !old(poll).has_applied(cb.id) && cb.id != old(poll).init_request_id ==> *final(poll)
            == *old(poll),
{
    if contains_id(&poll.applied, cb.id) {
        return Ok(());
    }
    if cb.id != poll.init_request_id {
        return Err(ErrorCode::UnknownIdentifier);
    }
    match cb.payload {
        CallbackPayload::InitVoteStats(env) => {
            poll.tally = Some(env);
            poll.applied.push(cb.id);
            proof {
                lemma_applied_push_preserves_wf(*old(poll), *poll, cb.id);
                lemma_knows_after_applied_push(*old(poll), *poll, cb.id);
                lemma_synced_grows(*old(poll), *poll, *bridge, cb.id);
            }
            Ok(())
        },
        CallbackPayload::Aborted => {
            poll.applied.push(cb.id);
            proof {
                lemma_applied_push_preserves_wf(*old(poll), *poll, cb.id);
                lemma_knows_after_applied_push(*old(poll), *poll, cb.id);
                lemma_synced_grows(*old(poll), *poll, *bridge, cb.id);
            }
            Err(ErrorCode::AbortedComputation)
        },
        _ => Err(ErrorCode::UnexpectedPayload),
    }
}

/// A poll whose state moved only by settling one identifier on the applied
/// list knows nothing new beyond that identifier.
proof fn lemma_knows_after_applied_push(pre: PollAccount, post: PollAccount, id: u64)
    requires
        post.applied@ == pre.applied@.push(id),
        post.receipts@.len() == pre.receipts@.len(),
        forall|i: int|
            0 <= i < post.receipts@.len() ==> (#[trigger] post.receipts@[i]).request_id
                == pre.receipts@[i].request_id,
        post.init_request_id == pre.init_request_id,
        post.pending_reveal == pre.pending_reveal || post.pending_reveal is None,
    ensures
        forall|x: u64| #[trigger] post.knows_id(x) ==> pre.knows_id(x) || x == id,
{
    assert forall|x: u64| #[trigger] post.knows_id(x) implies pre.knows_id(x) || x == id by {
        if post.applied@.contains(x) {
            let w = choose|w: int| 0 <= w < post.applied@.len() && post.applied@[w] == x;
            if w == post.applied@.len() - 1 {
                assert(x == id);
            } else {
                assert(pre.applied@[w] == x);
                assert(pre.applied@.contains(x));
            }
        }
        if exists|i: int| 0 <= i < post.receipts@.len() && post.receipts@[i].request_id == x {
            let i = choose|i: int|
                0 <= i < post.receipts@.len() && post.receipts@[i].request_id == x;
            assert(pre.receipts@[i].request_id == x);
        }
    }
}

/// A poll that learns at most one identifier, and learns it from a delivered
/// callback, stays in step with its bridge.
proof fn lemma_synced_grows(pre: PollAccount, post: PollAccount, bridge: Bridge, id: u64)
    requires
        synced(pre, bridge),
        bridge.wf(),
        bridge.spec_delivered().contains(id),
        forall|x: u64| #[trigger] post.knows_id(x) ==> pre.knows_id(x) || x == id,
    ensures
        synced(post, bridge),
{
    let w = choose|w: int|
        0 <= w < bridge.spec_delivered().len() && bridge.spec_delivered()[w] == id;
    assert(bridge.spec_delivered()[w] == id);
    assert(bridge.spec_is_used(id));
}

/// Settling one more callback identifier keeps the poll well formed, as long
/// as that identifier is not already settled and no stamped receipt and no
/// awaited reveal travels under it.
proof fn lemma_applied_push_preserves_wf(pre: PollAccount, post: PollAccount, id: u64)
    requires
        pre.wf(),
        !pre.applied@.contains(id),
        post.applied@ == pre.applied@.push(id),
        post.receipts@ == pre.receipts@,
        post.window == pre.window,
        post.init_request_id == pre.init_request_id,
        forall|i: int|
            0 <= i < post.receipts@.len() && (#[trigger] post.receipts@[i]).status is Pending
                ==> post.receipts@[i].request_id != id,
        (post.pending_reveal matches Some(rid) ==> rid != id),
        forall|i: int|
            0 <= i < post.receipts@.len() ==> (#[trigger] post.receipts@[i]).request_id
                != post.init_request_id,
        forall|i: int|
            0 <= i < post.receipts@.len() ==> post.pending_reveal != Some(
                (#[trigger] post.receipts@[i]).request_id,
            ),
        (post.pending_reveal matches Some(rid) ==> rid != post.init_request_id),
        (post.pending_reveal matches Some(rid) ==> !pre.applied@.contains(rid) && rid != id),
        (post.finalized <==> post.outcome is Some),
    ensures
        post.wf(),
{
    assert(post.applied@.last() == id);
    assert(post.applied@.drop_last() == pre.applied@);
    assert forall|i: int, j: int|
        #![trigger post.applied@[i], post.applied@[j]]
        0 <= i < j < post.applied@.len() implies post.applied@[i] != post.applied@[j] by {
        if j == post.applied@.len() - 1 {
            assert(pre.applied@[i] == post.applied@[i]);
            assert(!pre.applied@.contains(id));
        } else {
            assert(pre.applied@[i] == post.applied@[i]);
            assert(pre.applied@[j] == post.applied@[j]);
        }
    }
    assert forall|i: int|
        0 <= i < post.receipts@.len() && (#[trigger] post.receipts@[i]).status is Pending
        implies !post.applied@.contains(post.receipts@[i].request_id) by {
        let rid = post.receipts@[i].request_id;
        if post.applied@.contains(rid) {
            let w = choose|w: int| 0 <= w < post.applied@.len() && post.applied@[w] == rid;
            if w == post.applied@.len() - 1 {
                assert(rid == id);
            } else {
                assert(pre.applied@[w] == rid);
                assert(pre.applied@.contains(rid));
                assert(pre.receipts@[i].status is Pending);
            }
        }
    }
    match post.pending_reveal {
        Some(rid) => {
            if post.applied@.contains(rid) {
                let w = choose|w: int| 0 <= w < post.applied@.len() && post.applied@[w] == rid;
                if w < post.applied@.len() - 1 {
                    assert(pre.applied@[w] == rid);
                    assert(pre.applied@.contains(rid));
                }
            }
        },
        None => {},
    }
}

/// The decision `vote_callback` makes: a settled identifier is absorbed, an
/// identifier no stamped receipt waits for is unknown, and otherwise the
/// payload decides.
pub open spec fn vote_callback_outcome(poll: PollAccount, cb: ComputationCallback) -> Result<
    (),
    ErrorCode,
> {
    if poll.has_applied(cb.id) {
        Ok(())
    } else if !poll.has_pending_request(cb.id) {
        Err(ErrorCode::UnknownIdentifier)
    } else {
        match cb.payload {
            CallbackPayload::Vote(_) => Ok(()),
            CallbackPayload::Aborted => Err(ErrorCode::AbortedComputation),
            _ => Err(ErrorCode::UnexpectedPayload),
        }
    }
}

/// How a successful accumulate callback changes the poll: the waiting receipt
/// turns `Counted`, the returned sealed tally becomes the snapshot, the
/// identifier is settled, and nothing else moves.
pub open spec fn vote_callback_success_rel(
    pre: PollAccount,
    post: PollAccount,
    id: u64,
    env: Envelope<VoteStats>,
) -> bool {
    let k = pre.request_index(id);
    &&& post.receipts@ == pre.receipts@.update(
        k,
        (VoteReceipt {
            voter: pre.receipts@[k].voter,
            request_id: id,
            status: ReceiptStatus::Counted,
        }),
    )
    &&& post.tally == Some(env)
    &&& post.applied@ == pre.applied@.push(id)
    &&& post.id == pre.id
    &&& post.authority == pre.authority
    &&& post.question == pre.question
    &&& post.nonce == pre.nonce
    &&& post.window == pre.window
    &&& post.finalized == pre.finalized
    &&& post.outcome == pre.outcome
    &&& post.init_request_id == pre.init_request_id
    &&& post.pending_reveal == pre.pending_reveal
}

/// How an aborted accumulate callback changes the poll: the waiting receipt
/// turns `Failed` — the voter may cast again — the identifier is settled, and
/// the tally snapshot stays untouched.
pub open spec fn vote_callback_abort_rel(pre: PollAccount, post: PollAccount, id: u64) -> bool {
    let k = pre.request_index(id);
    &&& post.receipts@ == pre.receipts@.update(
        k,
        (VoteReceipt {
            voter: pre.receipts@[k].voter,
            request_id: id,
            status: ReceiptStatus::Failed,
        }),
    )
    &&& post.tally == pre.tally
    &&& post.applied@ == pre.applied@.push(id)
    &&& post.id == pre.id
    &&& post.authority == pre.authority
    &&& post.question == pre.question
    &&& post.nonce == pre.nonce
    &&& post.window == pre.window
    &&& post.finalized == pre.finalized
    &&& post.outcome == pre.outcome
    &&& post.init_request_id == pre.init_request_id
    &&& post.pending_reveal == pre.pending_reveal
}

/// Apply the callback of one vote's accumulate computation. Success settles
/// the voter's receipt as counted and stores the new sealed tally; an abort
/// settles the receipt as failed, leaves the tally untouched and is surfaced.
/// Either way the identifier is settled, so replaying the identical callback
/// changes nothing.
pub fn vote_callback(poll: &mut PollAccount, bridge: &Bridge, cb: ComputationCallback) -> (r:
    Result<(), ErrorCode>)
    requires
        old(poll).wf(),
        bridge.wf(),
        synced(*old(poll), *bridge),
        bridge.spec_delivered().contains(cb.id),
    ensures
        final(poll).wf(),
        synced(*final(poll), *bridge),
        r == vote_callback_outcome(*old(poll), cb),
        old(poll).has_applied(cb.id) ==> *final(poll) == *old(poll),
        !old(poll).has_applied(cb.id) && old(poll).has_pending_request(cb.id) && cb.payload
            is Vote ==> vote_callback_success_rel(
            *old(poll),
            *final(poll),
            cb.id,
            cb.payload->Vote_0,
        ),
        !old(poll).has_applied(cb.id) && old(poll).has_pending_request(cb.id) && cb.payload
            is Aborted ==> vote_callback_abort_rel(*old(poll), *final(poll), cb.id),
        !old(poll).has_applied(cb.id) && !old(poll).has_pending_request(cb.id) ==> *final(poll)
            == *old(poll),
        !old(poll).has_applied(cb.id) && old(poll).has_pending_request(cb.id) && !(cb.payload
            is Vote) && !(cb.payload is Aborted) ==> *final(poll) == *old(poll),
{
    if contains_id(&poll.applied, cb.id) {
        return Ok(());
    }
    let found = find_receipt_by_request(&poll.receipts, cb.id);
    let waiting = match found {
        Some(i) => match poll.receipts[i].status {
            ReceiptStatus::Pending => true,
            _ => false,
        },
        None => false,
    };
    proof {
        if waiting {
            assert(poll.has_pending_request(cb.id));
        } else {
            assert(!poll.has_pending_request(cb.id)) by {
                if poll.has_pending_request(cb.id) {
                    let j = choose|j: int|
                        0 <= j < poll.receipts@.len() && poll.receipts@[j].request_id == cb.id && (
                        poll.receipts@[j].status is Pending);
                    match found {
                        Some(i) => {
                            assert(j == i as int);
                        },
                        None => {
                            assert(poll.receipts@[j].request_id != cb.id);
                        },
                    }
                }
            }
        }
    }
    if !waiting {
        return Err(ErrorCode::UnknownIdentifier);
    }
    let i = match found {
        Some(i) => i,
        None => {
            return Err(ErrorCode::UnknownIdentifier);
        },
    };
    proof {
        assert(old(poll).request_index(cb.id) == i as int) by {
            let j = old(poll).request_index(cb.id);
            assert(0 <= j < old(poll).receipts@.len() && old(poll).receipts@[j].request_id
                == cb.id);
            assert(j == i as int);
        }
    }
    let voter = poll.receipts[i].voter;
    match cb.payload {
        CallbackPayload::Vote(env) => {
            poll.receipts[i] = VoteReceipt {
                voter,
                request_id: cb.id,
                status: ReceiptStatus::Counted,
            };
            poll.tally = Some(env);
            poll.applied.push(cb.id);
            proof {
                lemma_vote_settle_preserves_wf(*old(poll), *poll, cb.id, i as int);
                lemma_knows_after_applied_push(*old(poll), *poll, cb.id);
                lemma_synced_grows(*old(poll), *poll, *bridge, cb.id);
            }
            Ok(())
        },
        CallbackPayload::Aborted => {
            poll.receipts[i] = VoteReceipt {
                voter,
                request_id: cb.id,
                status: ReceiptStatus::Failed,
            };
            poll.applied.push(cb.id);
            proof {
                lemma_vote_settle_preserves_wf(*old(poll), *poll, cb.id, i as int);
                lemma_knows_after_applied_push(*old(poll), *poll, cb.id);
                lemma_synced_grows(*old(poll), *poll, *bridge, cb.id);
            }
            Err(ErrorCode::AbortedComputation)
        },
        _ => Err(ErrorCode::UnexpectedPayload),
    }
}

/// Settling the receipt a callback was waiting for keeps the poll well
/// formed: the entry keeps its voter and identifier, only its status leaves
/// `Pending`, and the identifier joins the applied list exactly once.
proof fn lemma_vote_settle_preserves_wf(pre: PollAccount, post: PollAccount, id: u64, k: int)
    requires
        pre.wf(),
        0 <= k < pre.receipts@.len(),
        pre.receipts@[k].request_id == id,
        pre.receipts@[k].status is Pending,
        post.receipts@.len() == pre.receipts@.len(),
        post.receipts@ == pre.receipts@.update(k, post.receipts@[k]),
        post.receipts@[k].voter == pre.receipts@[k].voter,
        post.receipts@[k].request_id == id,
        !(post.receipts@[k].status is Pending),
        post.applied@ == pre.applied@.push(id),
        post.window == pre.window,
        post.init_request_id == pre.init_request_id,
        post.pending_reveal == pre.pending_reveal,
        post.finalized == pre.finalized,
        post.outcome == pre.outcome,
        pre.finalized <==> pre.outcome is Some,
        !pre.applied@.contains(id),
    ensures
        post.wf(),
{
    assert(!pre.applied@.contains(id));
    assert(post.applied@.last() == id);
    assert(post.applied@.drop_last() == pre.applied@);
    assert forall|i: int, j: int|
        #![trigger post.applied@[i], post.applied@[j]]
        0 <= i < j < post.applied@.len() implies post.applied@[i] != post.applied@[j] by {
        if j == post.applied@.len() - 1 {
            assert(pre.applied@[i] == post.applied@[i]);
        } else {
            assert(pre.applied@[i] == post.applied@[i]);
            assert(pre.applied@[j] == post.applied@[j]);
        }
    }
    assert forall|i: int|
        0 <= i < post.receipts@.len() && (#[trigger] post.receipts@[i]).status is Pending
        implies !post.applied@.contains(post.receipts@[i].request_id) by {
        let rid = post.receipts@[i].request_id;
        assert(i != k);
        assert(post.receipts@[i] == pre.receipts@[i]);
        assert(rid != id);
        if post.applied@.contains(rid) {
            let w = choose|w: int| 0 <= w < post.applied@.len() && post.applied@[w] == rid;
            assert(w < post.applied@.len() - 1);
            assert(pre.applied@[w] == rid);
            assert(pre.applied@.contains(rid));
        }
    }
    match post.pending_reveal {
        Some(rid) => {
            assert(pre.pending_reveal != Some(pre.receipts@[k].request_id));
            assert(rid != id);
            if post.applied@.contains(rid) {
                let w = choose|w: int| 0 <= w < post.applied@.len() && post.applied@[w] == rid;
                assert(w < post.applied@.len() - 1);
                assert(pre.applied@[w] == rid);
                assert(pre.applied@.contains(rid));
            }
        },
        None => {},
    }
}

/// The decision `reveal_result_callback` makes: a settled identifier is
/// absorbed, an identifier that is not the awaited reveal is unknown, and
/// otherwise the payload decides.
pub open spec fn reveal_callback_outcome(poll: PollAccount, cb: ComputationCallback) -> Result<
    (),
    ErrorCode,
> {
    if poll.has_applied(cb.id) {
        Ok(())
    } else if poll.pending_reveal != Some(cb.id) {
        Err(ErrorCode::UnknownIdentifier)
    } else {
        match cb.payload {
            CallbackPayload::RevealResult(_) => Ok(()),
            CallbackPayload::Aborted => Err(ErrorCode::AbortedComputation),
            _ => Err(ErrorCode::UnexpectedPayload),
        }
    }
}

/// How a successful reveal callback changes the poll: it finalizes, the one
/// revealed bit goes on public record, the awaited identifier is settled, and
/// nothing else — in particular no receipt and no count — moves.
pub open spec fn reveal_callback_success_rel(
    pre: PollAccount,
    post: PollAccount,
    id: u64,
    outcome: bool,
) -> bool {
    &&& post.finalized
    &&& post.outcome == Some(outcome)
    &&& post.pending_reveal is None
    &&& post.applied@ == pre.applied@.push(id)
    &&& post.receipts@ == pre.receipts@
    &&& post.tally == pre.tally
    &&& post.id == pre.id
    &&& post.authority == pre.authority
    &&& post.question == pre.question
    &&& post.nonce == pre.nonce
    &&& post.window == pre.window
    &&& post.init_request_id == pre.init_request_id
}

/// How an aborted reveal callback changes the poll: the identifier is settled
/// and the awaited reveal is cleared, but the poll does not finalize, so the
/// authority may request a reveal again.
pub open spec fn reveal_callback_abort_rel(pre: PollAccount, post: PollAccount, id: u64) -> bool {
    &&& post.finalized == pre.finalized
    &&& post.outcome == pre.outcome
    &&& post.pending_reveal is None
    &&& post.applied@ == pre.applied@.push(id)
    &&& post.receipts@ == pre.receipts@
    &&& post.tally == pre.tally
    &&& post.id == pre.id
    &&& post.authority == pre.authority
    &&& post.question == pre.question
    &&& post.nonce == pre.nonce
    &&& post.window == pre.window
    &&& post.init_request_id == pre.init_request_id
}

/// Apply the callback of the reveal computation. Success sets the finalized
/// flag — once and forever — and records the revealed majority bit; an abort
/// leaves the poll unfinalized so the reveal can be requested again. Either
/// way the identifier is settled, so replaying the identical callback changes
/// nothing.
pub fn reveal_result_callback(
    poll: &mut PollAccount,
    bridge: &Bridge,
    cb: ComputationCallback,
) -> (r: Result<(), ErrorCode>)
    requires
        old(poll).wf(),
        bridge.wf(),
        synced(*old(poll), *bridge),
        bridge.spec_delivered().contains(cb.id),
    ensures
        final(poll).wf(),
        synced(*final(poll), *bridge),
        r == reveal_callback_outcome(*old(poll), cb),
        old(poll).has_applied(cb.id) ==> *final(poll) == *old(poll),
        !old(poll).has_applied(cb.id) && old(poll).pending_reveal == Some(cb.id) && cb.payload
            is RevealResult ==> reveal_callback_success_rel(
            *old(poll),
            *final(poll),
            cb.id,
            cb.payload->RevealResult_0,
        ),
        !old(poll).has_applied(cb.id) && old(poll).pending_reveal == Some(cb.id) && cb.payload
            is Aborted ==> reveal_callback_abort_rel(*old(poll), *final(poll), cb.id),
        !old(poll).has_applied(cb.id) && old(poll).pending_reveal != Some(cb.id) ==> *final(poll)
            == *old(poll),
        !old(poll).has_applied(cb.id) && old(poll).pending_reveal == Some(cb.id) && !(cb.payload
            is RevealResult) && !(cb.payload is Aborted) ==> *final(poll) == *old(poll),
{
    if contains_id(&poll.applied, cb.id) {
        return Ok(());
    }
    let awaited = match poll.pending_reveal {
        Some(rid) => rid == cb.id,
        None => false,
    };
    if !awaited {
        return Err(ErrorCode::UnknownIdentifier);
    }
    match cb.payload {
        CallbackPayload::RevealResult(outcome) => {
            poll.finalized = true;
            poll.outcome = Some(outcome);
            poll.pending_reveal = None;
            poll.applied.push(cb.id);
            proof {
                lemma_applied_push_preserves_wf(*old(poll), *poll, cb.id);
                lemma_knows_after_applied_push(*old(poll), *poll, cb.id);
                lemma_synced_grows(*old(poll), *poll, *bridge, cb.id);
            }
            Ok(())
        },
        CallbackPayload::Aborted => {
            poll.pending_reveal = None;
            poll.applied.push(cb.id);
            proof {
                lemma_applied_push_preserves_wf(*old(poll), *poll, cb.id);
                lemma_knows_after_applied_push(*old(poll), *poll, cb.id);
                lemma_synced_grows(*old(poll), *poll, *bridge, cb.id);
            }
            Err(ErrorCode::AbortedComputation)
        },
        _ => Err(ErrorCode::UnexpectedPayload),
    }
}

/// The receipts update of an accepted vote keeps the poll well formed: the
/// written entry keeps its voter slot (or opens a new one), and its fresh
/// request identifier collides with nothing the poll has seen.
proof fn lemma_cast_vote_preserves_wf(
    pre: PollAccount,
    post: PollAccount,
    voter: u64,
    computation_offset: u64,
    k: int,
)
    requires
        pre.wf(),
        !pre.knows_id(computation_offset),
        !pre.has_blocking_receipt(voter),
        PollAccount::same_except_receipts(pre, post),
        0 <= k < post.receipts@.len(),
        post.receipts@[k] == (VoteReceipt {
            voter,
            request_id: computation_offset,
            status: ReceiptStatus::Pending,
        }),
        if pre.has_receipt(voter) {
            k == pre.receipt_index(voter) && post.receipts@ == pre.receipts@.update(k, post.receipts@[k])
        } else {
            post.receipts@ == pre.receipts@.push(post.receipts@[k]) && k == pre.receipts@.len()
        },
    ensures
        post.wf(),
{
    assert forall|i: int| 0 <= i < post.receipts@.len() && i != k implies post.receipts@[i]
        == pre.receipts@[i] by {}
    if pre.has_receipt(voter) {
        let j = pre.receipt_index(voter);
        assert(0 <= j < pre.receipts@.len() && pre.receipts@[j].voter == voter);
    }
    assert forall|i: int|
        0 <= i < post.receipts@.len() && i != k implies post.receipts@[i].voter != voter by {
        if post.receipts@[i].voter == voter {
            assert(pre.receipts@[i].voter == voter);
            assert(pre.has_receipt(voter));
            let j = pre.receipt_index(voter);
            assert(j == k && j == i);
        }
    }
    assert forall|i: int|
        0 <= i < post.receipts@.len() && i != k implies post.receipts@[i].request_id
        != computation_offset by {
        if post.receipts@[i].request_id == computation_offset {
            assert(pre.receipts@[i].request_id == computation_offset);
            assert(pre.knows_id(computation_offset));
        }
    }
    assert(!pre.applied@.contains(computation_offset));
}

/// Law: one vote per voter. After a vote of this voter was accepted, a second
/// `cast_vote` by the same voter is refused as `AlreadyVoted` — whatever the
/// bridge holds, whatever identifier is offered, at any moment the window is
/// open — while the accepted vote's callback has not yet arrived.
pub proof fn lemma_second_vote_rejected(
    p0: PollAccount,
    p1: PollAccount,
    b0: Bridge,
    b1: Bridge,
    voter: u64,
    now1: i64,
    now2: i64,
    off1: u64,
    off2: u64,
)
    requires
        p0.wf(),
        cast_vote_outcome(p0, b0, voter, now1, off1) is Ok,
        cast_vote_ok_rel(p0, p1, voter, off1),
        p1.window.spec_is_open(now2),
    ensures
        cast_vote_outcome(p1, b1, voter, now2, off2) == Err::<(), ErrorCode>(
            ErrorCode::AlreadyVoted,
        ),
{
}

/// Law: one vote per voter, also after the first vote's callback has landed.
/// Once the accepted vote was counted, a second `cast_vote` by the same voter
/// is still refused as `AlreadyVoted`.
pub proof fn lemma_second_vote_rejected_after_count(
    p1: PollAccount,
    p2: PollAccount,
    b2: Bridge,
    voter: u64,
    now: i64,
    id: u64,
    env: Envelope<VoteStats>,
    off: u64,
)
    requires
        p1.wf(),
        p1.has_blocking_receipt(voter),
        !p1.finalized,
        p1.has_pending_request(id),
        vote_callback_success_rel(p1, p2, id, env),
        p2.window.spec_is_open(now),
    ensures
        cast_vote_outcome(p2, b2, voter, now, off) == Err::<(), ErrorCode>(
            ErrorCode::AlreadyVoted,
        ),
{
    let k = p1.request_index(id);
    assert(0 <= k < p1.receipts@.len() && p1.receipts@[k].request_id == id);
    let j = choose|j: int|
        0 <= j < p1.receipts@.len() && p1.receipts@[j].voter == voter && !(p1.receipts@[j].status
        is Failed);
    if j == k {
        assert(p2.receipts@[k].voter == voter);
        assert(!(p2.receipts@[k].status is Failed));
    } else {
        assert(p2.receipts@[j] == p1.receipts@[j]);
    }
    assert(p2.has_blocking_receipt(voter));
}

/// Law: the voting window is enforced at its exact boundaries. Before the
/// start a vote is refused as `VotingNotStarted`; from the end on it is
/// refused as `TimeExceeded`; and a vote is accepted only with the window
/// open, the moment of the start included, the moment of the end excluded.
pub proof fn lemma_voting_window(
    poll: PollAccount,
    bridge: Bridge,
    voter: u64,
    now: i64,
    off: u64,
)
    requires
        !poll.finalized,
        poll.window.spec_valid(),
    ensures
        now < poll.window.start ==> cast_vote_outcome(poll, bridge, voter, now, off) == Err::<
            (),
            ErrorCode,
        >(ErrorCode::VotingNotStarted),
        now >= poll.window.end ==> cast_vote_outcome(poll, bridge, voter, now, off) == Err::<
            (),
            ErrorCode,
        >(ErrorCode::TimeExceeded),
        cast_vote_outcome(poll, bridge, voter, now, off) is Ok ==> poll.window.spec_is_open(now),
{
}

/// Law: only the poll's authority can ask for the reveal. Any other requester
/// is refused as `InvalidAuthority`, at any moment — also after the window has
/// closed — and whatever else the poll's state holds.
pub proof fn lemma_reveal_requires_authority(
    poll: PollAccount,
    bridge: Bridge,
    requester: u64,
    now: i64,
    off: u64,
)
    requires
        requester != poll.authority,
    ensures
        request_reveal_outcome(poll, bridge, requester, now, off) == Err::<(), ErrorCode>(
            ErrorCode::InvalidAuthority,
        ),
{
}

/// Law: the reveal waits for the window to close, strictly. Up to and
/// including the window's end the authority is refused as `WaitTillEndTime`.
pub proof fn lemma_reveal_waits_for_close(poll: PollAccount, bridge: Bridge, now: i64, off: u64)
    requires
        now <= poll.window.end,
    ensures
        request_reveal_outcome(poll, bridge, poll.authority, now, off) == Err::<(), ErrorCode>(
            ErrorCode::WaitTillEndTime,
        ),
{
}

/// Law: a poll finalizes once. After a reveal request was accepted and its
/// callback finalized the poll, a second reveal request — by the authority,
/// after the close — is refused as `Finalized`.
pub proof fn lemma_second_reveal_finalized(
    p0: PollAccount,
    p1: PollAccount,
    p2: PollAccount,
    b2: Bridge,
    off1: u64,
    outcome: bool,
    now2: i64,
    off2: u64,
)
    requires
        request_reveal_ok_rel(p0, p1, off1),
        reveal_callback_success_rel(p1, p2, off1, outcome),
        now2 > p2.window.end,
    ensures
        request_reveal_outcome(p2, b2, p2.authority, now2, off2) == Err::<(), ErrorCode>(
            ErrorCode::Finalized,
        ),
{
}

/// Law: callback application is idempotent per identifier. A counted vote's
/// identifier is settled, so replaying the identical success callback meets
/// the replay case of `vote_callback`, which leaves the poll unchanged.
pub proof fn lemma_vote_callback_settles(
    p1: PollAccount,
    p2: PollAccount,
    id: u64,
    env: Envelope<VoteStats>,
)
    requires
        vote_callback_success_rel(p1, p2, id, env),
    ensures
        p2.has_applied(id),
        vote_callback_outcome(p2, ComputationCallback { id, payload: CallbackPayload::Vote(env) })
            is Ok,
{
    assert(p2.applied@.last() == id);
}

/// Law: a finalizing reveal settles its identifier, so replaying the
/// identical success callback meets the replay case of
/// `reveal_result_callback`, which leaves the poll unchanged.
pub proof fn lemma_reveal_callback_settles(
    p1: PollAccount,
    p2: PollAccount,
    id: u64,
    outcome: bool,
)
    requires
        reveal_callback_success_rel(p1, p2, id, outcome),
    ensures
        p2.has_applied(id),
        reveal_callback_outcome(
            p2,
            ComputationCallback { id, payload: CallbackPayload::RevealResult(outcome) },
        ) is Ok,
{
    assert(p2.applied@.last() == id);
}

} // verus!
