//! The server: the one place the dispatcher's operations, the mutation
//! queue and the ledger meet. `start` hands a server out only once the
//! startup handshake has consumed both readiness signals; the read
//! handlers answer straight from the ledger; the broadcast handler only
//! puts the transaction on the queue — its acknowledgment confirms intake,
//! not application, which happens when the consumer drains the queue.

use crate::chain::{BlockSummary, ChainState, LookupError};
use crate::consumer::{accepted_payloads, run_consumer};
use crate::queue::{
    enqueue_accepted, enqueue_result, LedgerRequest, MutationQueue, QUEUE_CAPACITY,
};
use crate::records::{
    filtered_records, lookup_field, record_query_keys, records_response, KeyError, RecordFilter,
    RecordMap,
};
use crate::startup::{startup_advance, startup_complete, startup_run, ReadinessSignal,
    StartupPhase, StartupViolation};
use vstd::prelude::*;

verus! {

/// Why `start` refused to hand a server out.
#[derive(Clone, Copy, PartialEq, Eq, Structural, Debug)]
pub enum StartupError {
    /// A readiness signal arrived out of order or twice.
    Violation { violation: StartupViolation },
    /// The signals ran out before both components were confirmed live.
    Incomplete { phase: StartupPhase },
}

/// The gateway: the ledger it serves, and the mutation queue between the
/// broadcast handler and the consumer.
pub struct Server {
    chain: ChainState,
    queue: MutationQueue,
}

impl Server {
    /// The ledger as the server sees it.
    pub closed spec fn chain_view(&self) -> ChainState {
        self.chain
    }

    /// The requests queued and not yet applied, front first.
    pub closed spec fn queue_view(&self) -> Seq<LedgerRequest> {
        self.queue@
    }

    /// A well-formed server fronts a well-formed ledger with a
    /// well-formed queue of the fixed capacity.
    pub closed spec fn wf(&self) -> bool {
        &&& self.chain.wf()
        &&& self.queue.wf()
        &&& self.queue.spec_capacity() == QUEUE_CAPACITY as nat
    }

    /// Brings the server up over a ledger, given the readiness signals in
    /// the order they fired. A server comes back exactly when the
    /// handshake ran to completion — consumer confirmed, then listener
    /// confirmed; anything less, or any stray signal, is a startup defect
    /// and no server is handed out. A returned server starts with an
    /// empty queue and the ledger untouched.
    pub fn start(chain: ChainState, signals: &Vec<ReadinessSignal>) -> (r: Result<
        Server,
        StartupError,
    >)
        requires
            chain.wf(),
        ensures
            match r {
                Ok(server) => {
                    &&& startup_run(StartupPhase::AwaitingConsumer, signals@) == Ok::<
                        StartupPhase,
                        StartupViolation,
                    >(StartupPhase::Started)
                    &&& server.wf()
                    &&& server.chain_view() == chain
                    &&& server.queue_view() == Seq::<LedgerRequest>::empty()
                },
                Err(StartupError::Violation { violation }) => startup_run(
                    StartupPhase::AwaitingConsumer,
                    signals@,
                ) == Err::<StartupPhase, StartupViolation>(violation),
                Err(StartupError::Incomplete { phase }) => startup_run(
                    StartupPhase::AwaitingConsumer,
                    signals@,
                ) == Ok::<StartupPhase, StartupViolation>(phase) && !(phase is Started),
            },
    {
        let mut phase = StartupPhase::AwaitingConsumer;
        let n = signals.len();
        let mut i: usize = 0;
        proof {
            assert(signals@.skip(0) =~= signals@);
        }
        while i < n
            invariant
                n == signals@.len(),
                0 <= i <= n,
                startup_run(StartupPhase::AwaitingConsumer, signals@) == startup_run(
                    phase,
                    signals@.skip(i as int),
                ),
            decreases n - i,
        {
            proof {
                assert(signals@.skip(i as int)[0] == signals@[i as int]);
                assert(signals@.skip(i as int).drop_first() =~= signals@.skip(i as int + 1));
            }
            match startup_advance(phase, signals[i]) {
                Ok(next) => {
                    phase = next;
                },
                Err(violation) => {
                    return Err(StartupError::Violation { violation });
                },
            }
            i = i + 1;
        }
        proof {
            assert(signals@.skip(n as int) =~= Seq::<ReadinessSignal>::empty());
        }
        if startup_complete(phase) {
            Ok(Server { chain, queue: MutationQueue::new(QUEUE_CAPACITY) })
        } else {
            Err(StartupError::Incomplete { phase })
        }
    }

    /// The height of the chain tip.
    pub fn latest_height(&self) -> (h: u32)
        requires
            self.wf(),
        ensures
            h as nat == self.chain_view().blocks_view().len() - 1,
    {
        self.chain.latest_height()
    }

    /// The hash of the chain tip.
    pub fn latest_hash(&self) -> (h: u64)
        requires
            self.wf(),
        ensures
            h == self.chain_view().blocks_view().last().hash,
    {
        self.chain.latest_hash()
    }

    /// The block at the chain tip.
    pub fn latest_block(&self) -> (b: BlockSummary)
        requires
            self.wf(),
        ensures
            b == self.chain_view().blocks_view().last(),
    {
        self.chain.latest_block()
    }

    /// The block at the given height, or a request failure exactly when
    /// the height is beyond the chain tip; the server stays fit to serve
    /// either way.
    pub fn get_block(&self, height: u32) -> (r: Result<BlockSummary, LookupError>)
        requires
            self.wf(),
        ensures
            (height as nat) < self.chain_view().blocks_view().len() ==> r == Ok::<
                BlockSummary,
                LookupError,
            >(self.chain_view().blocks_view()[height as int]),
            (height as nat) >= self.chain_view().blocks_view().len() ==> r == Err::<
                BlockSummary,
                LookupError,
            >(LookupError::BlockNotFound),
    {
        self.chain.get_block(height)
    }

    /// Every record, as an ordered mapping in stable scan order.
    pub fn records_all(&self) -> (m: RecordMap)
        requires
            self.wf(),
        ensures
            m@ == filtered_records(self.chain_view().records_view(), RecordFilter::All),
    {
        records_response(&self.chain, RecordFilter::All)
    }

    /// The spent records for the keys named in the body, or a refusal by
    /// name for whichever key is missing.
    pub fn records_spent(&self, body: &Vec<(String, String)>) -> (r: Result<RecordMap, KeyError>)
        requires
            self.wf(),
        ensures
            match r {
                Ok(m) => {
                    &&& lookup_field(body.deep_view(), "view_key"@) is Some
                    &&& lookup_field(body.deep_view(), "graph_key"@) is Some
                    &&& m@ == filtered_records(
                        self.chain_view().records_view(),
                        RecordFilter::Spent,
                    )
                },
                Err(KeyError::MissingViewKey) => lookup_field(
                    body.deep_view(),
                    "view_key"@,
                ) is None,
                Err(KeyError::MissingGraphKey) => {
                    &&& lookup_field(body.deep_view(), "view_key"@) is Some
                    &&& lookup_field(body.deep_view(), "graph_key"@) is None
                },
            },
    {
        match record_query_keys(body) {
            Ok(_keys) => Ok(records_response(&self.chain, RecordFilter::Spent)),
            Err(e) => Err(e),
        }
    }

    /// The unspent records for the keys named in the body, or a refusal
    /// by name for whichever key is missing.
    pub fn records_unspent(&self, body: &Vec<(String, String)>) -> (r: Result<RecordMap, KeyError>)
        requires
            self.wf(),
        ensures
            match r {
                Ok(m) => {
                    &&& lookup_field(body.deep_view(), "view_key"@) is Some
                    &&& lookup_field(body.deep_view(), "graph_key"@) is Some
                    &&& m@ == filtered_records(
                        self.chain_view().records_view(),
                        RecordFilter::Unspent,
                    )
                },
                Err(KeyError::MissingViewKey) => lookup_field(
                    body.deep_view(),
                    "view_key"@,
                ) is None,
                Err(KeyError::MissingGraphKey) => {
                    &&& lookup_field(body.deep_view(), "view_key"@) is Some
                    &&& lookup_field(body.deep_view(), "graph_key"@) is None
                },
            },
    {
        match record_query_keys(body) {
            Ok(_keys) => Ok(records_response(&self.chain, RecordFilter::Unspent)),
            Err(e) => Err(e),
        }
    }

    /// Puts a transaction on the mutation queue. A true acknowledgment
    /// means accepted for processing, nothing more: the ledger is not
    /// touched here, and the transaction is applied only when the
    /// consumer reaches it. A full queue refuses the attempt without
    /// losing the payload; the asynchronous shell suspends the producer
    /// and retries once a slot frees.
    pub fn transaction_broadcast(&mut self, payload: Vec<u8>) -> (accepted: bool)
        requires
            old(self).wf(),
        ensures
            final(self).wf(),
            accepted == enqueue_accepted(old(self).queue_view(), QUEUE_CAPACITY as nat),
            final(self).queue_view() == enqueue_result(
                old(self).queue_view(),
                QUEUE_CAPACITY as nat,
                LedgerRequest::TransactionBroadcast { payload },
            ),
            final(self).chain_view() == old(self).chain_view(),
    {
        self.queue.try_enqueue(LedgerRequest::TransactionBroadcast { payload })
    }

    /// Drains the queue, applying every queued request to the ledger in
    /// the order it was enqueued; a rejected transaction is reported and
    /// skipped, never blocking the ones behind it. Returns how many
    /// applications the ledger refused.
    pub fn process_mutations(&mut self) -> (failed: usize)
        requires
            old(self).wf(),
        ensures
            final(self).wf(),
            final(self).queue_view().len() == 0,
            final(self).chain_view().pool_view() == old(self).chain_view().pool_view()
                + accepted_payloads(old(self).queue_view()),
            final(self).chain_view().blocks_view() == old(self).chain_view().blocks_view(),
            final(self).chain_view().records_view() == old(self).chain_view().records_view(),
            failed as nat == old(self).queue_view().len() - accepted_payloads(
                old(self).queue_view(),
            ).len(),
    {
        run_consumer(&mut self.chain, &mut self.queue)
    }

    /// The ledger's memory pool, for inspection: the payloads accepted so
    /// far, in arrival order.
    pub fn pool_len(&self) -> (n: usize)
        requires
            self.wf(),
        ensures
            n as nat == self.chain_view().pool_view().len(),
    {
        self.chain.pool_len()
    }

    /// The payload at this position of the memory pool, in arrival order.
    pub fn pool_get(&self, i: usize) -> (r: Option<&Vec<u8>>)
        requires
            self.wf(),
        ensures
            (i as nat) < self.chain_view().pool_view().len() ==> r is Some && r.unwrap()@
                == self.chain_view().pool_view()[i as int],
            (i as nat) >= self.chain_view().pool_view().len() ==> r is None,
    {
        self.chain.pool_get(i)
    }
}

} // verus!
