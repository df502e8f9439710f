//! The computation queue/callback bridge: a strict one-shot request/response
//! channel to the off-box tally circuit. A submission is accepted only for a
//! fresh identifier, a well-formed argument list and an authorized submitter;
//! for each accepted identifier at most one callback is ever delivered, and
//! none before its own submission was accepted. Delivery order across
//! different identifiers is left open.

use vstd::prelude::*;

use crate::circuit::{UserVote, VoteStats};
use crate::envelope::Envelope;

verus! {

/// The three operations of the tally circuit that can be requested.
#[derive(Clone, Copy, PartialEq, Eq, Structural, Debug)]
pub enum Operation {
    InitVoteStats,
    Vote,
    RevealResult,
}

/// One argument of a computation request: plaintext key material, a plaintext
/// nonce, or a sealed ballot.
pub enum Argument {
    ArcisPubkey(u64),
    PlaintextU128(u128),
    EncryptedBallot(Envelope<UserVote>),
}

/// A computation request, keyed by a caller-chosen identifier.
pub struct ComputationRequest {
    pub id: u64,
    pub submitter: u64,
    pub operation: Operation,
    pub args: Vec<Argument>,
}

/// What a callback carries back: the payload of the finished operation, or an
/// abort signal when the computation failed.
pub enum CallbackPayload {
    InitVoteStats(Envelope<VoteStats>),
    Vote(Envelope<VoteStats>),
    RevealResult(bool),
    Aborted,
}

/// The one callback for an accepted request, under the same identifier.
pub struct ComputationCallback {
    pub id: u64,
    pub payload: CallbackPayload,
}

/// Why a submission was turned away. Every rejection is synchronous and leaves
/// the bridge unchanged.
#[derive(Clone, Copy, PartialEq, Eq, Structural, Debug)]
pub enum RejectReason {
    UnauthorizedSubmitter,
    MalformedArguments,
    DuplicateIdentifier,
}

/// The argument list an operation demands: the vote carries key material, a
/// nonce and the sealed ballot, in that order; the other operations carry
/// nothing.
pub open spec fn args_well_formed(operation: Operation, args: Seq<Argument>) -> bool {
    match operation {
        Operation::InitVoteStats => args.len() == 0,
        Operation::Vote => args.len() == 3 && args[0] is ArcisPubkey && args[1] is PlaintextU128
            && args[2] is EncryptedBallot,
        Operation::RevealResult => args.len() == 0,
    }
}

/// The bridge. `accepted` is the append-only record of accepted requests;
/// `delivered` lists the identifiers whose one callback has already gone out.
/// A request is pending while its identifier is accepted but not delivered.
pub struct Bridge {
    owner: u64,
    accepted: Vec<ComputationRequest>,
    delivered: Vec<u64>,
}

impl Bridge {
    /// The one submitter authorized to use this bridge's queue slots.
    pub closed spec fn spec_owner(&self) -> u64 {
        self.owner
    }

    /// All requests accepted so far, in acceptance order.
    pub closed spec fn spec_accepted(&self) -> Seq<ComputationRequest> {
        self.accepted@
    }

    /// Identifiers whose callback has been delivered.
    pub closed spec fn spec_delivered(&self) -> Seq<u64> {
        self.delivered@
    }

    /// An identifier is used once a request under it was accepted; it can
    /// never be used again.
    pub open spec fn spec_is_used(&self, id: u64) -> bool {
        exists|i: int| 0 <= i < self.spec_accepted().len() && self.spec_accepted()[i].id == id
    }

    /// An identifier is pending while its request is accepted and its callback
    /// has not yet been delivered.
    pub open spec fn spec_is_pending(&self, id: u64) -> bool {
        self.spec_is_used(id) && !self.spec_delivered().contains(id)
    }

    /// The accepted request under a used identifier.
    pub open spec fn spec_request_of(&self, id: u64) -> ComputationRequest {
        self.spec_accepted()[choose|i: int|
            0 <= i < self.spec_accepted().len() && self.spec_accepted()[i].id == id]
    }

    /// Well-formed bridge: accepted identifiers are pairwise distinct, each
    /// delivered identifier was accepted and is listed once, and every
    /// accepted request came from the authorized submitter with a well-formed
    /// argument list.
    pub open spec fn wf(&self) -> bool {
        &&& forall|i: int, j: int|
            #![trigger self.spec_accepted()[i], self.spec_accepted()[j]]
            0 <= i < j < self.spec_accepted().len() ==> self.spec_accepted()[i].id
                != self.spec_accepted()[j].id
        &&& forall|i: int, j: int|
            #![trigger self.spec_delivered()[i], self.spec_delivered()[j]]
            0 <= i < j < self.spec_delivered().len() ==> self.spec_delivered()[i]
                != self.spec_delivered()[j]
        &&& forall|i: int|
            0 <= i < self.spec_delivered().len() ==> self.spec_is_used(
                #[trigger] self.spec_delivered()[i],
            )
        &&& forall|i: int|
            0 <= i < self.spec_accepted().len() ==> (#[trigger] self.spec_accepted()[i]).submitter
                == self.spec_owner()
        &&& forall|i: int|
            0 <= i < self.spec_accepted().len() ==> args_well_formed(
                (#[trigger] self.spec_accepted()[i]).operation,
                self.spec_accepted()[i].args@,
            )
    }

    /// A fresh bridge for one authorized submitter: nothing accepted, nothing
    /// delivered.
    pub fn new(owner: u64) -> (r: Bridge)
        ensures
            r.wf(),
            r.spec_owner() == owner,
            r.spec_accepted().len() == 0,
            r.spec_delivered().len() == 0,
    {
        Bridge { owner, accepted: Vec::new(), delivered: Vec::new() }
    }

    /// The authorized submitter's identity; public knowledge.
    pub fn owner(&self) -> (r: u64)
        ensures
            r == self.spec_owner(),
    {
        self.owner
    }

    /// Has a request under this identifier ever been accepted?
    pub fn is_used(&self, id: u64) -> (r: bool)
        ensures
            r == self.spec_is_used(id),
    {
        let mut i: usize = 0;
        while i < self.accepted.len()
            invariant
                0 <= i <= self.accepted.len(),
                forall|k: int| 0 <= k < i ==> self.spec_accepted()[k].id != id,
            decreases self.accepted.len() - i,
        {
            if self.accepted[i].id == id {
                return true;
            }
            i += 1;
        }
        false
    }

    /// Has the one callback for this identifier already been delivered?
    pub fn is_delivered(&self, id: u64) -> (r: bool)
        ensures
            r == self.spec_delivered().contains(id),
    {
        let mut i: usize = 0;
        while i < self.delivered.len()
            invariant
                0 <= i <= self.delivered.len(),
                forall|k: int| 0 <= k < i ==> self.spec_delivered()[k] != id,
            decreases self.delivered.len() - i,
        {
            if self.delivered[i] == id {
                return true;
            }
            i += 1;
        }
        assert(!self.spec_delivered().contains(id));
        false
    }

    /// Is a request under this identifier accepted and still unanswered?
    pub fn is_pending(&self, id: u64) -> (r: bool)
        ensures
            r == self.spec_is_pending(id),
    {
        self.is_used(id) && !self.is_delivered(id)
    }

    /// How many requests have been accepted so far.
    pub fn num_accepted(&self) -> (r: usize)
        ensures
            r == self.spec_accepted().len(),
    {
        self.accepted.len()
    }

    /// Read one accepted request; the execution layer walks these to find
    /// pending work.
    pub fn request_at(&self, i: usize) -> (r: &ComputationRequest)
        requires
            i < self.spec_accepted().len(),
        ensures
            *r == self.spec_accepted()[i as int],
    {
        &self.accepted[i]
    }

    /// The decision `submit` makes, in the order the checks run: submitter,
    /// then argument shape, then identifier freshness.
    pub open spec fn submit_outcome(&self, request: ComputationRequest) -> Result<
        (),
        RejectReason,
    > {
        if request.submitter != self.spec_owner() {
            Err(RejectReason::UnauthorizedSubmitter)
        } else if !args_well_formed(request.operation, request.args@) {
            Err(RejectReason::MalformedArguments)
        } else if self.spec_is_used(request.id) {
            Err(RejectReason::DuplicateIdentifier)
        } else {
            Ok(())
        }
    }

    /// How an accepted submission changes the bridge: the request is appended,
    /// nothing else moves.
    pub open spec fn submit_ok_rel(pre: Bridge, post: Bridge, request: ComputationRequest) -> bool {
        &&& post.spec_accepted() == pre.spec_accepted().push(request)
        &&& post.spec_delivered() == pre.spec_delivered()
        &&& post.spec_owner() == pre.spec_owner()
    }

    /// Accept a computation request, or reject it with the specific reason.
    /// Acceptance is owed exactly when the submitter is authorized, the
    /// arguments fit the operation and the identifier is fresh; a rejection
    /// leaves the bridge unchanged.
    pub fn submit(&mut self, request: ComputationRequest) -> (r: Result<(), RejectReason>)
        requires
            old(self).wf(),
        ensures
            final(self).wf(),
            r == old(self).submit_outcome(request),
            r is Ok ==> Bridge::submit_ok_rel(*old(self), *final(self), request),
            r is Err ==> *final(self) == *old(self),
    {
        if request.submitter != self.owner {
            return Err(RejectReason::UnauthorizedSubmitter);
        }
        if !check_args(request.operation, &request.args) {
            return Err(RejectReason::MalformedArguments);
        }
        if self.is_used(request.id) {
            return Err(RejectReason::DuplicateIdentifier);
        }
        self.accepted.push(request);
        proof {
            let pre = old(self).spec_accepted();
            let post = self.spec_accepted();
            assert(post.drop_last() == pre);
            assert(post.last() == request);
            assert forall|i: int, j: int|
                #![trigger post[i], post[j]]
                0 <= i < j < post.len() implies post[i].id != post[j].id by {
                if j == post.len() - 1 {
                    assert(post[i] == pre[i]);
                    assert(!old(self).spec_is_used(request.id));
                } else {
                    assert(post[i] == pre[i]);
                    assert(post[j] == pre[j]);
                }
            }
            assert forall|i: int|
                0 <= i < self.spec_delivered().len() implies self.spec_is_used(
                #[trigger] self.spec_delivered()[i],
            ) by {
                let d = self.spec_delivered()[i];
                assert(old(self).spec_delivered()[i] == d);
                assert(old(self).spec_is_used(d));
                let k = choose|k: int| 0 <= k < pre.len() && pre[k].id == d;
                assert(post[k].id == d);
            }
            assert forall|i: int| 0 <= i < post.len() implies (#[trigger] post[i]).submitter
                == self.spec_owner() && args_well_formed(post[i].operation, post[i].args@) by {
                if i < post.len() - 1 {
                    assert(post[i] == pre[i]);
                }
            }
        }
        Ok(())
    }

    /// How a delivery changes the bridge: the identifier is appended to the
    /// delivered list, nothing else moves.
    pub open spec fn deliver_ok_rel(pre: Bridge, post: Bridge, id: u64) -> bool {
        &&& post.spec_accepted() == pre.spec_accepted()
        &&& post.spec_delivered() == pre.spec_delivered().push(id)
        &&& post.spec_owner() == pre.spec_owner()
    }

    /// Deliver the one callback for a pending identifier, carrying the payload
    /// the execution layer produced. Returns the callback exactly when the
    /// identifier is pending; afterwards it is pending no more, so a second
    /// delivery under the same identifier is impossible.
    pub fn deliver(&mut self, id: u64, payload: CallbackPayload) -> (r: Option<ComputationCallback>)
        requires
            old(self).wf(),
        ensures
            final(self).wf(),
            r is Some <==> old(self).spec_is_pending(id),
            r is Some ==> r->0.id == id && r->0.payload == payload && Bridge::deliver_ok_rel(
                *old(self),
                *final(self),
                id,
            ),
            r is None ==> *final(self) == *old(self),
            !final(self).spec_is_pending(id),
            forall|j: u64|
                j != id ==> #[trigger] final(self).spec_is_pending(j) == old(self).spec_is_pending(
                    j,
                ),
            forall|j: u64| #[trigger] final(self).spec_is_used(j) == old(self).spec_is_used(j),
    {
        if !self.is_pending(id) {
            if self.is_used(id) {
                assert(self.spec_delivered().contains(id));
            }
            return None;
        }
        self.delivered.push(id);
        assert(self.spec_delivered().drop_last() == old(self).spec_delivered());
        assert(self.spec_delivered().last() == id);
        assert forall|i: int, j: int|
            #![trigger self.spec_delivered()[i], self.spec_delivered()[j]]
            0 <= i < j < self.spec_delivered().len() implies self.spec_delivered()[i]
            != self.spec_delivered()[j] by {
            if j < self.spec_delivered().len() - 1 {
                assert(old(self).spec_delivered()[i] != old(self).spec_delivered()[j]);
            } else {
                assert(!old(self).spec_delivered().contains(id));
            }
        }
        Some(ComputationCallback { id, payload })
    }
}

/// Does the argument list fit the operation's required shape?
fn check_args(operation: Operation, args: &Vec<Argument>) -> (r: bool)
    ensures
        r == args_well_formed(operation, args@),
{
    match operation {
        Operation::InitVoteStats => args.len() == 0,
        Operation::RevealResult => args.len() == 0,
        Operation::Vote => {
            if args.len() != 3 {
                return false;
            }
            let a0 = match &args[0] {
                Argument::ArcisPubkey(_) => true,
                _ => false,
            };
            let a1 = match &args[1] {
                Argument::PlaintextU128(_) => true,
                _ => false,
            };
            let a2 = match &args[2] {
                Argument::EncryptedBallot(_) => true,
                _ => false,
            };
            a0 && a1 && a2
        },
    }
}

/// An accepted submission marks exactly its own identifier as used.
pub proof fn lemma_submit_marks_id_used(pre: Bridge, post: Bridge, request: ComputationRequest)
    requires
        Bridge::submit_ok_rel(pre, post, request),
    ensures
        forall|j: u64| #[trigger] post.spec_is_used(j) <==> pre.spec_is_used(j) || j == request.id,
{
    assert(post.spec_accepted().drop_last() == pre.spec_accepted());
    assert forall|j: u64| #[trigger] post.spec_is_used(j) <==> pre.spec_is_used(j) || j
        == request.id by {
        if post.spec_is_used(j) {
            let i = choose|i: int|
                0 <= i < post.spec_accepted().len() && post.spec_accepted()[i].id == j;
            if i < post.spec_accepted().len() - 1 {
                assert(pre.spec_accepted()[i].id == j);
            } else {
                assert(post.spec_accepted().last().id == j);
            }
        }
        if pre.spec_is_used(j) {
            let i = choose|i: int|
                0 <= i < pre.spec_accepted().len() && pre.spec_accepted()[i].id == j;
            assert(post.spec_accepted()[i].id == j);
        }
        if j == request.id {
            assert(post.spec_accepted().last().id == j);
        }
    }
}

/// Law: the bridge is one-shot per identifier. Once an identifier has ever
/// been used, no further submission under it is accepted; and once its
/// callback is delivered, it is not pending, so no second callback can be
/// delivered for it.
pub proof fn lemma_bridge_one_shot(pre: Bridge, post: Bridge, id: u64, request: ComputationRequest)
    requires
        pre.wf(),
        pre.spec_is_used(id),
        request.id == id,
        Bridge::deliver_ok_rel(pre, post, id),
    ensures
        pre.submit_outcome(request) !is Ok,
        !post.spec_is_pending(id),
{
    assert(post.spec_delivered().last() == id);
    assert(post.spec_delivered().contains(id));
}

/// Law: no callback before acceptance. A pending identifier is one whose
/// request was accepted earlier, and delivery answers only pending
/// identifiers.
pub proof fn lemma_callback_only_after_acceptance(b: Bridge, id: u64)
    requires
        b.spec_is_pending(id),
    ensures
        b.spec_is_used(id),
{
}

} // verus!
