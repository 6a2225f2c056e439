//! A concurrency-safe gateway between network clients and a single shared
//! ledger. Read-only queries go straight to the ledger; the one mutating
//! operation (submitting a transaction) is funnelled through a bounded FIFO
//! queue with a single consumer, so at most one mutation is ever applied at a
//! time. This crate holds the verified core: the queue and its FIFO
//! discipline, the consumer's state machine, the startup handshake, the route
//! dispatcher with its body-size limits, and the ordered record mapping.
//! The asynchronous plumbing around it (HTTP listener, channels, tasks) lives
//! in the unverified application shell.

pub mod chain;
pub mod consumer;
pub mod queue;
pub mod records;
pub mod routes;
pub mod server;
pub mod startup;
