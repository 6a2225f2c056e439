//! The mutation consumer: the single task that drains the mutation queue
//! strictly in arrival order and applies each request to the ledger. Its
//! decisions are a pure state machine here; the asynchronous shell performs
//! the actions (receiving from the channel, applying, logging a failure)
//! and feeds the outcomes back in as events.

use crate::chain::{valid_payload, ApplyError, ChainState};
use crate::queue::{LedgerRequest, MutationQueue};
use vstd::prelude::*;

verus! {

/// Where the consumer stands in its loop.
#[derive(Clone, PartialEq, Eq, Debug)]
pub enum ConsumerState {
    /// Waiting for the next request from the queue.
    AwaitingRequest,
    /// Applying the request it just took to the ledger.
    Applying,
    /// The queue's sender side is gone; the consumer is done.
    Closed,
}

/// What the consumer observes.
#[derive(PartialEq, Eq, Debug)]
pub enum ConsumerEvent {
    /// A request arrived from the queue.
    Received { request: LedgerRequest },
    /// Every producer handle was dropped: no request will ever arrive again.
    SenderDropped,
    /// Applying the current request to the ledger finished, well or badly.
    ApplyFinished { outcome: Result<(), ApplyError> },
}

/// What the consumer asks its shell to do next.
#[derive(Clone, PartialEq, Eq, Debug)]
pub enum ConsumerAction {
    /// Apply this request to the ledger's mutation entry point.
    Apply { request: LedgerRequest },
    /// Report the failed application to the operator, then keep going.
    ReportFailure,
    /// Wait for the next event.
    Wait,
    /// Stop: the consumer's work is over.
    Stop,
}

/// One step of the consumer's state machine. A finished application, no
/// matter its outcome, always leads back to waiting for the next request:
/// one rejected transaction never halts the consumer. Only the loss of
/// every producer closes it. An event that does not belong to the current
/// state changes nothing.
pub fn consumer_step(state: ConsumerState, event: ConsumerEvent) -> (r: (
    ConsumerState,
    ConsumerAction,
))
    ensures
        r == consumer_step_spec(state, event),
{
    match (state, event) {
        (ConsumerState::AwaitingRequest, ConsumerEvent::Received { request }) => (
            ConsumerState::Applying,
            ConsumerAction::Apply { request },
        ),
        (ConsumerState::AwaitingRequest, ConsumerEvent::SenderDropped) => (
            ConsumerState::Closed,
            ConsumerAction::Stop,
        ),
        (ConsumerState::Applying, ConsumerEvent::ApplyFinished { outcome }) => (
            ConsumerState::AwaitingRequest,
            if outcome.is_err() {
                ConsumerAction::ReportFailure
            } else {
                ConsumerAction::Wait
            },
        ),
        (s, _) => (s, ConsumerAction::Wait),
    }
}

/// The consumer's transition function.
pub open spec fn consumer_step_spec(state: ConsumerState, event: ConsumerEvent) -> (
    ConsumerState,
    ConsumerAction,
) {
    match (state, event) {
        (ConsumerState::AwaitingRequest, ConsumerEvent::Received { request }) => (
            ConsumerState::Applying,
            ConsumerAction::Apply { request },
        ),
        (ConsumerState::AwaitingRequest, ConsumerEvent::SenderDropped) => (
            ConsumerState::Closed,
            ConsumerAction::Stop,
        ),
        (ConsumerState::Applying, ConsumerEvent::ApplyFinished { outcome }) => (
            ConsumerState::AwaitingRequest,
            if outcome is Err {
                ConsumerAction::ReportFailure
            } else {
                ConsumerAction::Wait
            },
        ),
        (s, _) => (s, ConsumerAction::Wait),
    }
}

/// Of a sequence of requests, the payloads the ledger accepts, in order.
pub open spec fn accepted_payloads(reqs: Seq<LedgerRequest>) -> Seq<Seq<u8>>
    decreases reqs.len(),
{
    if reqs.len() == 0 {
        Seq::empty()
    } else if valid_payload(reqs[0].payload_view()) {
        seq![reqs[0].payload_view()] + accepted_payloads(reqs.drop_first())
    } else {
        accepted_payloads(reqs.drop_first())
    }
}

/// Drains the queue, applying every request to the ledger in FIFO order.
/// Afterwards the queue is empty and the memory pool has grown by exactly
/// the accepted payloads, in the order they were enqueued; a rejected
/// payload is skipped and never stops the ones behind it. Returns how many
/// applications the ledger refused.
pub fn run_consumer(chain: &mut ChainState, queue: &mut MutationQueue) -> (failed: usize)
    requires
        old(chain).wf(),
        old(queue).wf(),
    ensures
        final(chain).wf(),
        final(queue).wf(),
        final(queue).spec_capacity() == old(queue).spec_capacity(),
        final(queue)@.len() == 0,
        final(chain).pool_view() == old(chain).pool_view() + accepted_payloads(old(queue)@),
        final(chain).blocks_view() == old(chain).blocks_view(),
        final(chain).records_view() == old(chain).records_view(),
        failed as nat == old(queue)@.len() - accepted_payloads(old(queue)@).len(),
    {
        let mut failed: usize = 0;
        let ghost initial_pool = chain.pool_view();
        let ghost initial_queue = queue@;
        proof {
            lemma_accepted_len(initial_queue);
            queue.lemma_len_bounded();
        }
        while queue.len() > 0
            invariant
                chain.wf(),
                queue.wf(),
                queue.spec_capacity() == old(queue).spec_capacity(),
                chain.blocks_view() == old(chain).blocks_view(),
                chain.records_view() == old(chain).records_view(),
                initial_pool == old(chain).pool_view(),
                initial_queue == old(queue)@,
                chain.pool_view() + accepted_payloads(queue@) == initial_pool + accepted_payloads(
                    initial_queue,
                ),
                failed as nat + accepted_payloads(initial_queue).len() + queue@.len()
                    == initial_queue.len() + accepted_payloads(queue@).len(),
                failed as nat + queue@.len() <= initial_queue.len(),
                initial_queue.len() <= usize::MAX,
            decreases queue@.len(),
        {
            let ghost before = queue@;
            let next = queue.dequeue();
            match next {
                None => {
                    proof {
                        assert(false);
                    }
                },
                Some(request) => {
                    proof {
                        lemma_accepted_len(queue@);
                        assert(before[0] == request);
                        assert(accepted_payloads(before) == if valid_payload(
                            before[0].payload_view(),
                        ) {
                            seq![before[0].payload_view()] + accepted_payloads(queue@)
                        } else {
                            accepted_payloads(queue@)
                        });
                    }
                    let LedgerRequest::TransactionBroadcast { payload } = request;
                    let ghost p = payload@;
                    let outcome = chain.add_to_memory_pool(payload);
                    if outcome.is_err() {
                        failed = failed + 1;
                    }
                    proof {
                        if valid_payload(p) {
                            assert(chain.pool_view() + accepted_payloads(queue@) =~= initial_pool
                                + accepted_payloads(initial_queue));
                        }
                    }
                },
            }
        }
        proof {
            assert(accepted_payloads(queue@) =~= Seq::<Seq<u8>>::empty());
            assert(chain.pool_view() + accepted_payloads(queue@) =~= chain.pool_view());
        }
        failed
    }

/// No run accepts more payloads than it was handed requests.
pub proof fn lemma_accepted_len(reqs: Seq<LedgerRequest>)
    ensures
        accepted_payloads(reqs).len() <= reqs.len(),
    decreases reqs.len(),
{
    if reqs.len() > 0 {
        lemma_accepted_len(reqs.drop_first());
    }
}

/// A failed application never closes the consumer: whatever the outcome of
/// applying a request, the next state awaits the next request, and a
/// request received there is applied in turn.
pub proof fn lemma_failure_does_not_halt(outcome: Result<(), ApplyError>, next: LedgerRequest)
    ensures
        consumer_step_spec(
            ConsumerState::Applying,
            ConsumerEvent::ApplyFinished { outcome },
        ).0 == ConsumerState::AwaitingRequest,
        consumer_step_spec(
            ConsumerState::AwaitingRequest,
            ConsumerEvent::Received { request: next },
        ) == (ConsumerState::Applying, ConsumerAction::Apply { request: next }),
{
}

/// A rejected request contributes nothing and blocks nothing: the
/// payloads the ledger accepts around it are exactly those it would
/// accept were the rejected request never enqueued, in the same order —
/// so a failing mutation never prevents a subsequently enqueued one from
/// being applied.
pub proof fn lemma_rejected_is_skipped(
    before: Seq<LedgerRequest>,
    bad: LedgerRequest,
    after: Seq<LedgerRequest>,
)
    requires
        !valid_payload(bad.payload_view()),
    ensures
        accepted_payloads(before + seq![bad] + after) == accepted_payloads(before + after),
    decreases before.len(),
{
    if before.len() == 0 {
        assert(before + seq![bad] + after =~= seq![bad] + after);
        assert((seq![bad] + after).drop_first() =~= after);
        assert(before + after =~= after);
    } else {
        let whole = before + seq![bad] + after;
        let without = before + after;
        assert(whole[0] == before[0]);
        assert(without[0] == before[0]);
        assert(whole.drop_first() =~= before.drop_first() + seq![bad] + after);
        assert(without.drop_first() =~= before.drop_first() + after);
        lemma_rejected_is_skipped(before.drop_first(), bad, after);
    }
}

/// Every accepted payload in a run ends in the pool, behind the payloads
/// accepted before it: a rejected request ahead of it in the queue delays
/// nothing and loses nothing.
pub proof fn lemma_valid_payload_is_applied(reqs: Seq<LedgerRequest>, i: int)
    requires
        0 <= i < reqs.len(),
        valid_payload(reqs[i].payload_view()),
    ensures
        accepted_payloads(reqs).contains(reqs[i].payload_view()),
    decreases reqs.len(),
{
    if i == 0 {
        assert(accepted_payloads(reqs)[0] == reqs[0].payload_view());
    } else {
        lemma_valid_payload_is_applied(reqs.drop_first(), i - 1);
        let p = reqs[i].payload_view();
        let j = choose|j: int|
            0 <= j < accepted_payloads(reqs.drop_first()).len() && accepted_payloads(
                reqs.drop_first(),
            )[j] == p;
        if valid_payload(reqs[0].payload_view()) {
            assert(accepted_payloads(reqs)[j + 1] == p);
        } else {
            assert(accepted_payloads(reqs)[j] == p);
        }
    }
}

} // verus!
