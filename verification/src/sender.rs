//! Sending one item until the broker has acknowledged it. A send has two
//! stages, handing the item to the producer and waiting for the broker's
//! acknowledgment, and a failure at either stage starts it over.

use vstd::prelude::*;

verus! {

/// What the sender does next for its item.
#[derive(Clone, Copy, Debug, PartialEq, Eq, Structural)]
pub enum SendStep {
    /// Hand the item to the producer.
    Enqueue,
    /// Wait for the broker to acknowledge the item that was handed over.
    AwaitAck,
    /// The broker has acknowledged the item.
    Delivered,
}

/// The step that follows `step` once it has succeeded or failed.
pub open spec fn step_after(step: SendStep, succeeded: bool) -> SendStep {
    match step {
        SendStep::Enqueue => if succeeded {
            SendStep::AwaitAck
        } else {
            SendStep::Enqueue
        },
        SendStep::AwaitAck => if succeeded {
            SendStep::Delivered
        } else {
            SendStep::Enqueue
        },
        SendStep::Delivered => SendStep::Delivered,
    }
}

/// Where the sender stands after a run of outcomes, one per step taken.
/// Outcomes that come after the delivery change nothing.
pub open spec fn step_after_all(start: SendStep, outcomes: Seq<bool>) -> SendStep
    decreases outcomes.len(),
{
    if outcomes.len() == 0 {
        start
    } else {
        step_after(step_after_all(start, outcomes.drop_last()), outcomes.last())
    }
}

/// Number of times the send starts over during a run of outcomes: once
/// for every failure that happens before the delivery.
pub open spec fn retries_over(outcomes: Seq<bool>) -> nat
    decreases outcomes.len(),
{
    if outcomes.len() == 0 {
        0
    } else {
        let before = outcomes.drop_last();
        if step_after_all(SendStep::Enqueue, before) != SendStep::Delivered && !outcomes.last() {
            retries_over(before) + 1
        } else {
            retries_over(before)
        }
    }
}

/// Advances the sender by the outcome of the step it just took. There is no
/// limit on the number of attempts and no pause between them.
pub fn advance(step: SendStep, succeeded: bool) -> (next: SendStep)
    ensures
        next == step_after(step, succeeded),
{
    match step {
        SendStep::Enqueue => if succeeded {
            SendStep::AwaitAck
        } else {
            SendStep::Enqueue
        },
        SendStep::AwaitAck => if succeeded {
            SendStep::Delivered
        } else {
            SendStep::Enqueue
        },
        SendStep::Delivered => SendStep::Delivered,
    }
}

/// What a sender did over a recorded run of outcomes.
#[derive(Clone, Copy, Debug, PartialEq, Eq, Structural)]
pub struct SendTrace {
    /// Where the sender stood when the record ran out or the item was delivered.
    pub step: SendStep,
    /// Outcomes used up.
    pub used: usize,
    /// Times the send was started over after a failure.
    pub retries: usize,
}

/// Runs a sender over recorded outcomes, as the sending loop would over live
/// ones: it stops as soon as the item is delivered, or when the record runs
/// out.
pub fn replay(outcomes: &Vec<bool>) -> (trace: SendTrace)
    ensures
        trace.used <= outcomes@.len(),
        trace.step == step_after_all(SendStep::Enqueue, outcomes@.take(trace.used as int)),
        trace.step == step_after_all(SendStep::Enqueue, outcomes@),
        trace.step != SendStep::Delivered ==> trace.used == outcomes@.len(),
        forall|k: int|
            0 <= k < trace.used ==> step_after_all(SendStep::Enqueue, #[trigger] outcomes@.take(k))
                != SendStep::Delivered,
        trace.retries == retries_over(outcomes@.take(trace.used as int)),
{
    let mut step = SendStep::Enqueue;
    let mut used: usize = 0;
    let mut retries: usize = 0;
    proof {
        assert(outcomes@.take(0).len() == 0);
    }
    while used < outcomes.len() && step != SendStep::Delivered
        invariant
            used <= outcomes@.len(),
            step == step_after_all(SendStep::Enqueue, outcomes@.take(used as int)),
            forall|k: int|
                0 <= k < used ==> step_after_all(SendStep::Enqueue, #[trigger] outcomes@.take(k))
                    != SendStep::Delivered,
            retries == retries_over(outcomes@.take(used as int)),
            retries <= used,
        decreases outcomes@.len() - used,
    {
        let succeeded: bool = outcomes[used];
        proof {
            let longer = outcomes@.take(used + 1);
            assert(longer.drop_last() =~= outcomes@.take(used as int));
            assert(longer.last() == succeeded);
        }
        if !succeeded {
            retries = retries + 1;
        }
        step = advance(step, succeeded);
        used = used + 1;
    }
    proof {
        lemma_delivered_is_final(outcomes@, used as int);
    }
    SendTrace { step, used, retries }
}

/// Once the item is delivered, further outcomes change nothing; a sender
/// that has used up the whole record stands where the record leaves it.
pub proof fn lemma_delivered_is_final(outcomes: Seq<bool>, used: int)
    requires
        0 <= used <= outcomes.len(),
        used < outcomes.len() ==> step_after_all(SendStep::Enqueue, outcomes.take(used))
            == SendStep::Delivered,
    ensures
        step_after_all(SendStep::Enqueue, outcomes) == step_after_all(
            SendStep::Enqueue,
            outcomes.take(used),
        ),
    decreases outcomes.len() - used,
{
    if used == outcomes.len() {
        assert(outcomes.take(used) =~= outcomes);
    } else {
        let longer = outcomes.take(used + 1);
        assert(longer.drop_last() =~= outcomes.take(used));
        assert(step_after_all(SendStep::Enqueue, longer) == SendStep::Delivered);
        if used + 1 < outcomes.len() {
            lemma_delivered_is_final(outcomes, used + 1);
        } else {
            assert(longer =~= outcomes);
        }
    }
}

/// Only a positive acknowledgment delivers: every step into `Delivered`
/// from elsewhere is a successful wait for the broker, and every failure
/// leads back to handing the item over.
pub proof fn lemma_only_ack_delivers(step: SendStep, succeeded: bool)
    ensures
        step != SendStep::Delivered && step_after(step, succeeded) == SendStep::Delivered ==> step
            == SendStep::AwaitAck && succeeded,
        step != SendStep::Delivered && !succeeded ==> step_after(step, succeeded)
            == SendStep::Enqueue,
{
}

/// However many failures came before, an accepted hand-over followed by an
/// acknowledgment delivers the item.
pub proof fn lemma_retry_then_success_delivers(failures: Seq<bool>)
    requires
        step_after_all(SendStep::Enqueue, failures) == SendStep::Enqueue,
    ensures
        step_after_all(SendStep::Enqueue, failures.push(true).push(true)) == SendStep::Delivered,
{
    let one = failures.push(true);
    let two = one.push(true);
    assert(one.drop_last() =~= failures);
    assert(one.last());
    assert(step_after_all(SendStep::Enqueue, one) == SendStep::AwaitAck);
    assert(two.drop_last() =~= one);
    assert(two.last());
}

} // verus!
