use ledger_gateway::chain::{ApplyError, ChainState};
use ledger_gateway::consumer::{consumer_step, ConsumerAction, ConsumerEvent, ConsumerState};
use ledger_gateway::queue::{LedgerRequest, MutationQueue, QUEUE_CAPACITY};
use ledger_gateway::server::{Server, StartupError};
use ledger_gateway::startup::{startup_advance, ReadinessSignal, StartupPhase};

fn started_server() -> Server {
    let chain = ChainState::genesis(7);
    let signals = vec![ReadinessSignal::ConsumerReady, ReadinessSignal::ListenerReady];
    Server::start(chain, &signals).expect("both signals fired in order")
}

#[test]
fn fifo_order_of_concurrent_broadcasts() {
    let mut server = started_server();
    let payloads: Vec<Vec<u8>> = (1u8..=5).map(|i| vec![i, i + 1]).collect();
    for p in &payloads {
        assert!(server.transaction_broadcast(p.clone()));
    }
    let failed = server.process_mutations();
    assert_eq!(failed, 0);
    assert_eq!(server.pool_len(), 5);
    for (i, p) in payloads.iter().enumerate() {
        assert_eq!(server.pool_get(i).unwrap(), p);
    }
    assert!(server.pool_get(5).is_none());
}

#[test]
fn failing_mutation_does_not_block_later_ones() {
    let mut server = started_server();
    assert!(server.transaction_broadcast(vec![1]));
    assert!(server.transaction_broadcast(vec![])); // rejected by the ledger
    assert!(server.transaction_broadcast(vec![3]));
    let failed = server.process_mutations();
    assert_eq!(failed, 1);
    assert_eq!(server.pool_len(), 2);
    assert_eq!(server.pool_get(0).unwrap(), &vec![1]);
    assert_eq!(server.pool_get(1).unwrap(), &vec![3]);
}

#[test]
fn full_queue_refuses_without_losing_and_admits_after_free() {
    let mut queue = MutationQueue::new(2);
    let a = LedgerRequest::TransactionBroadcast { payload: vec![1] };
    let b = LedgerRequest::TransactionBroadcast { payload: vec![2] };
    let c = LedgerRequest::TransactionBroadcast { payload: vec![3] };
    assert!(queue.try_enqueue(a.clone()));
    assert!(queue.try_enqueue(b.clone()));
    assert!(queue.is_full());
    // At capacity: the attempt is refused, nothing is dropped, no error.
    assert!(!queue.try_enqueue(c.clone()));
    assert_eq!(queue.len(), 2);
    // A slot frees: the same attempt now completes.
    assert_eq!(queue.dequeue(), Some(a));
    assert!(queue.try_enqueue(c.clone()));
    assert_eq!(queue.dequeue(), Some(b));
    assert_eq!(queue.dequeue(), Some(c));
    assert_eq!(queue.dequeue(), None);
}

#[test]
fn broadcast_acknowledges_intake_not_application() {
    let mut server = started_server();
    assert!(server.transaction_broadcast(vec![9]));
    // Acknowledged, but not yet applied: the pool is still empty.
    assert_eq!(server.pool_len(), 0);
    server.process_mutations();
    assert_eq!(server.pool_len(), 1);
}

#[test]
fn server_queue_capacity_backpressure() {
    let mut server = started_server();
    for i in 0..QUEUE_CAPACITY {
        assert!(server.transaction_broadcast(vec![i as u8, 1]));
    }
    // The queue is at capacity: intake is refused, not erred or dropped.
    assert!(!server.transaction_broadcast(vec![255]));
    // The consumer drains the queue; intake then resumes.
    assert_eq!(server.process_mutations(), 0);
    assert!(server.transaction_broadcast(vec![255]));
    assert_eq!(server.pool_len(), QUEUE_CAPACITY);
}

#[test]
fn start_needs_both_signals_in_order() {
    let ok = vec![ReadinessSignal::ConsumerReady, ReadinessSignal::ListenerReady];
    assert!(Server::start(ChainState::genesis(1), &ok).is_ok());

    let none: Vec<ReadinessSignal> = Vec::new();
    match Server::start(ChainState::genesis(1), &none) {
        Err(StartupError::Incomplete { phase }) => {
            assert_eq!(phase, StartupPhase::AwaitingConsumer)
        }
        other => panic!("expected an incomplete startup, got {:?}", other.is_ok()),
    }

    let only_consumer = vec![ReadinessSignal::ConsumerReady];
    match Server::start(ChainState::genesis(1), &only_consumer) {
        Err(StartupError::Incomplete { phase }) => {
            assert_eq!(phase, StartupPhase::AwaitingListener)
        }
        other => panic!("expected an incomplete startup, got {:?}", other.is_ok()),
    }

    let listener_first = vec![ReadinessSignal::ListenerReady, ReadinessSignal::ConsumerReady];
    match Server::start(ChainState::genesis(1), &listener_first) {
        Err(StartupError::Violation { violation }) => {
            assert_eq!(violation.phase, StartupPhase::AwaitingConsumer);
            assert_eq!(violation.signal, ReadinessSignal::ListenerReady);
        }
        other => panic!("expected a startup violation, got {:?}", other.is_ok()),
    }
}

#[test]
fn read_after_start_always_succeeds() {
    // A server is handed out only fully live: a read issued immediately
    // after start succeeds.
    let server = started_server();
    assert_eq!(server.latest_height(), 0);
    assert_eq!(server.latest_hash(), 7);
    assert!(server.get_block(0).is_ok());
}

#[test]
fn genesis_height_and_delayed_application() {
    let chain = ChainState::genesis(42);
    let signals = vec![ReadinessSignal::ConsumerReady, ReadinessSignal::ListenerReady];
    let mut server = Server::start(chain, &signals).unwrap();
    assert_eq!(server.latest_height(), 0);

    for i in 0..10u8 {
        assert!(server.transaction_broadcast(vec![i + 1, 0]));
    }
    let target = vec![200u8, 201, 202];
    assert!(server.transaction_broadcast(target.clone()));
    server.process_mutations();
    // The broadcast behind ten others is still applied, after them.
    assert_eq!(server.pool_len(), 11);
    assert_eq!(server.pool_get(10).unwrap(), &target);
}

#[test]
fn consumer_state_machine_transitions() {
    let req = LedgerRequest::TransactionBroadcast { payload: vec![1] };
    let (s, a) = consumer_step(
        ConsumerState::AwaitingRequest,
        ConsumerEvent::Received { request: req.clone() },
    );
    assert_eq!(s, ConsumerState::Applying);
    assert_eq!(a, ConsumerAction::Apply { request: req });

    let (s, a) = consumer_step(
        ConsumerState::Applying,
        ConsumerEvent::ApplyFinished { outcome: Err(ApplyError::TransactionRejected) },
    );
    assert_eq!(s, ConsumerState::AwaitingRequest);
    assert_eq!(a, ConsumerAction::ReportFailure);

    let (s, a) = consumer_step(
        ConsumerState::Applying,
        ConsumerEvent::ApplyFinished { outcome: Ok(()) },
    );
    assert_eq!(s, ConsumerState::AwaitingRequest);
    assert_eq!(a, ConsumerAction::Wait);

    let (s, a) = consumer_step(ConsumerState::AwaitingRequest, ConsumerEvent::SenderDropped);
    assert_eq!(s, ConsumerState::Closed);
    assert_eq!(a, ConsumerAction::Stop);

    // An event that does not belong to the state changes nothing.
    let (s, a) = consumer_step(ConsumerState::Closed, ConsumerEvent::SenderDropped);
    assert_eq!(s, ConsumerState::Closed);
    assert_eq!(a, ConsumerAction::Wait);
}

#[test]
fn startup_advance_consumes_each_signal_once() {
    let p = startup_advance(StartupPhase::AwaitingConsumer, ReadinessSignal::ConsumerReady)
        .unwrap();
    assert_eq!(p, StartupPhase::AwaitingListener);
    let p = startup_advance(p, ReadinessSignal::ListenerReady).unwrap();
    assert_eq!(p, StartupPhase::Started);
    // A second firing of a one-shot is a violation.
    assert!(startup_advance(StartupPhase::Started, ReadinessSignal::ListenerReady).is_err());
    assert!(
        startup_advance(StartupPhase::AwaitingListener, ReadinessSignal::ConsumerReady).is_err()
    );
}

#[test]
fn ledger_rejects_only_invalid_payloads() {
    let mut chain = ChainState::genesis(3);
    assert_eq!(chain.add_to_memory_pool(vec![]), Err(ApplyError::TransactionRejected));
    assert_eq!(chain.pool_len(), 0);
    assert_eq!(chain.add_to_memory_pool(vec![5, 6]), Ok(()));
    assert_eq!(chain.pool_len(), 1);
    assert_eq!(chain.pool_get(0).unwrap(), &vec![5, 6]);
}
