//! The tally circuit: pure computation over sealed values. It holds a
//! two-counter state, increments one counter per ballot, and discloses a
//! single bit when asked to reveal: whether the yes votes outnumber the no
//! votes. The accumulate step is associative and commutative, so queued votes
//! may be applied in any order without changing the final counters.

use vstd::prelude::*;
use vstd::seq_lib::group_to_multiset_ensures;

use crate::envelope::{Envelope, KeyContext};

verus! {

/// A single voter's plaintext choice.
#[derive(Clone, Copy, PartialEq, Eq, Structural, Debug)]
pub struct UserVote {
    pub vote: bool,
}

/// The running counters. Outside the circuit this value travels only sealed
/// under the computation owner's context.
#[derive(Clone, Copy, PartialEq, Eq, Structural, Debug)]
pub struct VoteStats {
    pub yes: u64,
    pub no: u64,
}

/// Mathematical model of the counters, free of machine-word bounds.
pub struct TallyModel {
    pub yes: int,
    pub no: int,
}

impl View for VoteStats {
    type V = TallyModel;

    open spec fn view(&self) -> TallyModel {
        TallyModel { yes: self.yes as int, no: self.no as int }
    }
}

/// How a single computation of the circuit can fail: an envelope that the
/// declared context cannot open, or a counter already at its machine limit.
/// Either failure aborts the whole computation; there is no partial update.
#[derive(Clone, Copy, PartialEq, Eq, Structural, Debug)]
pub enum CircuitError {
    ForeignCiphertext,
    CounterOverflow,
}

/// One accumulate step on the model: a yes ballot raises `yes`, a no ballot
/// raises `no`.
pub open spec fn apply_one(t: TallyModel, vote: bool) -> TallyModel {
    if vote {
        TallyModel { yes: t.yes + 1, no: t.no }
    } else {
        TallyModel { yes: t.yes, no: t.no + 1 }
    }
}

/// A sequence of accumulate steps, applied left to right.
pub open spec fn apply_seq(t: TallyModel, ballots: Seq<bool>) -> TallyModel
    decreases ballots.len(),
{
    if ballots.len() == 0 {
        t
    } else {
        apply_one(apply_seq(t, ballots.drop_last()), ballots.last())
    }
}

/// How many ballots of a sequence say yes.
pub open spec fn count_yes(ballots: Seq<bool>) -> int
    decreases ballots.len(),
{
    if ballots.len() == 0 {
        0
    } else {
        count_yes(ballots.drop_last()) + (if ballots.last() {
            1int
        } else {
            0int
        })
    }
}

/// Does the circuit accept this pair of envelopes? A ballot must sit in a
/// shared context, the tally in the computation owner's context.
pub open spec fn contexts_accepted(
    ballot: Envelope<UserVote>,
    tally: Envelope<VoteStats>,
) -> bool {
    ballot.spec_ctx() is Shared && tally.spec_ctx() == KeyContext::ComputationOwner
}

/// Would one more ballot push a counter past the machine limit?
pub open spec fn step_overflows(stats: VoteStats, vote: bool) -> bool {
    if vote {
        stats.yes == u64::MAX
    } else {
        stats.no == u64::MAX
    }
}

/// Create the zeroed counters, sealed under the computation owner's context.
/// No inputs, no failure mode.
pub fn init_vote_stats() -> (r: Envelope<VoteStats>)
    ensures
        r.spec_ctx() == KeyContext::ComputationOwner,
        r.spec_value()@ == (TallyModel { yes: 0, no: 0 }),
{
    Envelope::seal(VoteStats { yes: 0, no: 0 }, KeyContext::ComputationOwner)
}

/// Accumulate one ballot: open both envelopes under their declared contexts,
/// raise the matching counter, and reseal the result under the context of the
/// tally input. Aborts, with no partial update, when an envelope sits in the
/// wrong kind of context or a counter is already at its limit.
pub fn vote(ballot: Envelope<UserVote>, tally: Envelope<VoteStats>) -> (r: Result<
    Envelope<VoteStats>,
    CircuitError,
>)
    ensures
        !contexts_accepted(ballot, tally) ==> r == Result::<
            Envelope<VoteStats>,
            CircuitError,
        >::Err(CircuitError::ForeignCiphertext),
        contexts_accepted(ballot, tally) && step_overflows(
            tally.spec_value(),
            ballot.spec_value().vote,
        ) ==> r == Result::<Envelope<VoteStats>, CircuitError>::Err(CircuitError::CounterOverflow),
        contexts_accepted(ballot, tally) && !step_overflows(
            tally.spec_value(),
            ballot.spec_value().vote,
        ) ==> (r is Ok && r->Ok_0.spec_ctx() == tally.spec_ctx() && r->Ok_0.spec_value()@
            == apply_one(tally.spec_value()@, ballot.spec_value().vote)),
{
    let ballot_ctx = ballot.ctx();
    let shared = match ballot_ctx {
        KeyContext::Shared(_) => true,
        KeyContext::ComputationOwner => false,
    };
    if !shared {
        return Err(CircuitError::ForeignCiphertext);
    }
    let tally_ctx = tally.ctx();
    if tally_ctx != KeyContext::ComputationOwner {
        return Err(CircuitError::ForeignCiphertext);
    }
    let user_vote = match ballot.open(ballot_ctx) {
        Ok(v) => v,
        Err(_) => {
            return Err(CircuitError::ForeignCiphertext);
        },
    };
    let stats = match tally.open(KeyContext::ComputationOwner) {
        Ok(s) => s,
        Err(_) => {
            return Err(CircuitError::ForeignCiphertext);
        },
    };
    let updated = if user_vote.vote {
        if stats.yes == u64::MAX {
            return Err(CircuitError::CounterOverflow);
        }
        VoteStats { yes: stats.yes + 1, no: stats.no }
    } else {
        if stats.no == u64::MAX {
            return Err(CircuitError::CounterOverflow);
        }
        VoteStats { yes: stats.yes, no: stats.no + 1 }
    };
    Ok(Envelope::seal(updated, tally_ctx))
}

/// Open the tally under the computation owner's context and disclose exactly
/// one bit: whether yes votes strictly outnumber no votes. A tie reveals
/// false. The counters themselves never leave sealed form.
pub fn reveal_result(tally: Envelope<VoteStats>) -> (r: Result<bool, CircuitError>)
    ensures
        tally.spec_ctx() == KeyContext::ComputationOwner ==> r == Result::<
            bool,
            CircuitError,
        >::Ok(tally.spec_value().yes > tally.spec_value().no),
        tally.spec_ctx() != KeyContext::ComputationOwner ==> r == Result::<
            bool,
            CircuitError,
        >::Err(CircuitError::ForeignCiphertext),
{
    let stats = match tally.open(KeyContext::ComputationOwner) {
        Ok(s) => s,
        Err(_) => {
            return Err(CircuitError::ForeignCiphertext);
        },
    };
    Ok(stats.yes > stats.no)
}

/// Law: accumulating a sequence of ballots adds exactly the number of yes
/// ballots to `yes` and the number of no ballots to `no`.
pub proof fn lemma_apply_seq_counts(t: TallyModel, ballots: Seq<bool>)
    ensures
        apply_seq(t, ballots).yes == t.yes + count_yes(ballots),
        apply_seq(t, ballots).no == t.no + (ballots.len() - count_yes(ballots)),
    decreases ballots.len(),
{
    if ballots.len() > 0 {
        lemma_apply_seq_counts(t, ballots.drop_last());
    }
}

/// The yes count of a sequence is the multiplicity of `true` in its multiset:
/// it does not depend on the order of the ballots.
pub proof fn lemma_count_yes_multiset(ballots: Seq<bool>)
    ensures
        count_yes(ballots) == ballots.to_multiset().count(true),
    decreases ballots.len(),
{
    broadcast use group_to_multiset_ensures;

    if ballots.len() == 0 {
        assert(!ballots.contains(true));
    } else {
        lemma_count_yes_multiset(ballots.drop_last());
        assert(ballots =~= ballots.drop_last().push(ballots.last()));
    }
}

/// Law: accumulate is order-independent. Two sequences holding the same
/// ballots, in whatever order, drive the tally from any starting state to the
/// same final state.
pub proof fn lemma_apply_seq_order_independent(t: TallyModel, b1: Seq<bool>, b2: Seq<bool>)
    requires
        b1.to_multiset() == b2.to_multiset(),
    ensures
        apply_seq(t, b1) == apply_seq(t, b2),
{
    broadcast use group_to_multiset_ensures;

    lemma_count_yes_multiset(b1);
    lemma_count_yes_multiset(b2);
    lemma_apply_seq_counts(t, b1);
    lemma_apply_seq_counts(t, b2);
    assert(b1.len() == b1.to_multiset().len());
    assert(b2.len() == b2.to_multiset().len());
}

} // verus!
