//! The bounded mutation queue: a FIFO of ledger mutation requests with a
//! fixed capacity. Producers that find the queue full are refused without
//! losing their item (the asynchronous shell suspends them and retries);
//! the single consumer takes requests strictly in arrival order.

use vstd::prelude::*;

verus! {

/// The queue capacity used by the server.
pub const QUEUE_CAPACITY: usize = 64;

/// A request that mutates the ledger. Today there is exactly one kind:
/// broadcasting a transaction, carried as its still-serialized payload.
/// The payload is opaque to the gateway; the ledger deserializes and
/// validates it when the request is applied.
#[derive(Clone, PartialEq, Eq, Debug)]
pub enum LedgerRequest {
    TransactionBroadcast { payload: Vec<u8> },
}

impl LedgerRequest {
    /// The payload carried by the request.
    pub open spec fn payload_view(&self) -> Seq<u8> {
        match self {
            LedgerRequest::TransactionBroadcast { payload } => payload@,
        }
    }
}

/// What an enqueue attempt does to the queue's contents: if there is room,
/// the request is appended at the back; otherwise the queue is unchanged.
pub open spec fn enqueue_result(
    s: Seq<LedgerRequest>,
    capacity: nat,
    r: LedgerRequest,
) -> Seq<LedgerRequest> {
    if s.len() < capacity {
        s.push(r)
    } else {
        s
    }
}

/// Whether an enqueue attempt on contents `s` is accepted.
pub open spec fn enqueue_accepted(s: Seq<LedgerRequest>, capacity: nat) -> bool {
    s.len() < capacity
}

/// What a dequeue does to the queue's contents: the front element leaves.
pub open spec fn dequeue_result(s: Seq<LedgerRequest>) -> Seq<LedgerRequest> {
    if s.len() == 0 {
        s
    } else {
        s.drop_first()
    }
}

/// A bounded multi-producer/single-consumer FIFO of mutation requests.
/// Its view is the sequence of requests currently queued, front first.
pub struct MutationQueue {
    items: Vec<LedgerRequest>,
    capacity: usize,
}

impl View for MutationQueue {
    type V = Seq<LedgerRequest>;

    closed spec fn view(&self) -> Seq<LedgerRequest> {
        self.items@
    }
}

impl MutationQueue {
    /// The fixed capacity the queue was created with.
    pub closed spec fn spec_capacity(&self) -> nat {
        self.capacity as nat
    }

    /// The queue never holds more requests than its capacity, and the
    /// capacity is positive.
    pub closed spec fn wf(&self) -> bool {
        self.items@.len() <= self.capacity && self.capacity >= 1
    }

    /// Creates an empty queue with the given capacity.
    pub fn new(capacity: usize) -> (q: MutationQueue)
        requires
            capacity >= 1,
        ensures
            q.wf(),
            q@ == Seq::<LedgerRequest>::empty(),
            q.spec_capacity() == capacity as nat,
    {
        MutationQueue { items: Vec::new(), capacity }
    }

    /// A well-formed queue holds no more than its capacity, and the
    /// capacity fits a machine word.
    pub proof fn lemma_len_bounded(&self)
        requires
            self.wf(),
        ensures
            self@.len() <= self.spec_capacity(),
            self.spec_capacity() <= usize::MAX,
    {
    }

    /// How many requests are queued.
    pub fn len(&self) -> (n: usize)
        ensures
            n as nat == self@.len(),
    {
        self.items.len()
    }

    /// Whether the queue is at capacity.
    pub fn is_full(&self) -> (b: bool)
        ensures
            b == !enqueue_accepted(self@, self.spec_capacity()),
    {
        self.items.len() >= self.capacity
    }

    /// Attempts to put a request at the back of the queue. When the queue is
    /// at capacity the attempt is refused and nothing changes — in
    /// particular the request is not dropped and no error is raised; the
    /// caller keeps it and tries again once a slot frees (backpressure).
    pub fn try_enqueue(&mut self, request: LedgerRequest) -> (accepted: bool)
        requires
            old(self).wf(),
        ensures
            final(self).wf(),
            final(self).spec_capacity() == old(self).spec_capacity(),
            accepted == enqueue_accepted(old(self)@, old(self).spec_capacity()),
            final(self)@ == enqueue_result(old(self)@, old(self).spec_capacity(), request),
    {
        if self.items.len() < self.capacity {
            self.items.push(request);
            true
        } else {
            false
        }
    }

    /// Takes the request at the front of the queue, if any: requests leave
    /// in exactly the order they were accepted.
    pub fn dequeue(&mut self) -> (r: Option<LedgerRequest>)
        requires
            old(self).wf(),
        ensures
            final(self).wf(),
            final(self).spec_capacity() == old(self).spec_capacity(),
            old(self)@.len() == 0 ==> r is None && final(self)@ == old(self)@,
            old(self)@.len() > 0 ==> r == Some(old(self)@[0]),
            final(self)@ == dequeue_result(old(self)@),
    {
        if self.items.len() == 0 {
            None
        } else {
            Some(self.items.remove(0))
        }
    }
}

/// What a whole burst of enqueue attempts, one after the other, does to
/// the queue's contents.
pub open spec fn enqueue_all(
    s: Seq<LedgerRequest>,
    capacity: nat,
    rs: Seq<LedgerRequest>,
) -> Seq<LedgerRequest>
    decreases rs.len(),
{
    if rs.len() == 0 {
        s
    } else {
        enqueue_all(enqueue_result(s, capacity, rs[0]), capacity, rs.drop_first())
    }
}

/// However many requests are enqueued one after the other, as long as the
/// queue has room for all of them they end up behind the earlier contents
/// in exactly the order their enqueues completed: the order the consumer
/// takes them in is the enqueue-completion order.
pub proof fn lemma_fifo_order(s: Seq<LedgerRequest>, capacity: nat, rs: Seq<LedgerRequest>)
    requires
        s.len() + rs.len() <= capacity,
    ensures
        enqueue_all(s, capacity, rs) == s + rs,
    decreases rs.len(),
{
    if rs.len() == 0 {
        assert(s + rs =~= s);
    } else {
        assert(enqueue_result(s, capacity, rs[0]) == s.push(rs[0]));
        lemma_fifo_order(s.push(rs[0]), capacity, rs.drop_first());
        assert(s.push(rs[0]) + rs.drop_first() =~= s + rs);
    }
}

/// Backpressure: while the queue is at capacity an enqueue attempt is
/// refused and changes nothing — the item is neither dropped nor turned
/// into an error — and as soon as one slot frees (the consumer takes the
/// front request) the same attempt is accepted and the item goes to the
/// back.
pub proof fn lemma_backpressure(s: Seq<LedgerRequest>, capacity: nat, r: LedgerRequest)
    requires
        s.len() == capacity,
        capacity >= 1,
    ensures
        !enqueue_accepted(s, capacity),
        enqueue_result(s, capacity, r) == s,
        enqueue_accepted(dequeue_result(s), capacity),
        enqueue_result(dequeue_result(s), capacity, r) == dequeue_result(s).push(r),
{
}

} // verus!
