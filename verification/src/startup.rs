//! The startup handshake: `start` must not return a server before both the
//! mutation consumer and the HTTP listener are demonstrably live. Each of
//! the two fires a one-shot readiness signal; the startup routine advances
//! through this state machine and hands the server out only once it has
//! consumed both. A signal that arrives out of order, or a second firing of
//! a one-shot, is a programming-contract violation and is refused.

use vstd::prelude::*;

verus! {

/// Where the startup routine stands.
#[derive(Clone, Copy, PartialEq, Eq, Structural, Debug)]
pub enum StartupPhase {
    /// The consumer was spawned; its readiness signal has not fired yet.
    AwaitingConsumer,
    /// The consumer is live; the listener's signal has not fired yet.
    AwaitingListener,
    /// Both are live: `start` may return the server.
    Started,
}

/// The one-shot readiness signals.
#[derive(Clone, Copy, PartialEq, Eq, Structural, Debug)]
pub enum ReadinessSignal {
    /// The consumer has entered its receive loop.
    ConsumerReady,
    /// The listener has bound its socket and is about to serve.
    ListenerReady,
}

/// A signal arriving in a phase where it does not belong: a double firing
/// of a one-shot, or the listener reporting before the consumer.
#[derive(Clone, Copy, PartialEq, Eq, Structural, Debug)]
pub struct StartupViolation {
    /// The phase the routine was in when the stray signal arrived.
    pub phase: StartupPhase,
    /// The signal that did not belong there.
    pub signal: ReadinessSignal,
}

/// The startup routine's transition function: each signal is consumed
/// exactly once, in order, and anything else is a violation.
pub open spec fn startup_advance_spec(phase: StartupPhase, signal: ReadinessSignal) -> Result<
    StartupPhase,
    StartupViolation,
> {
    match (phase, signal) {
        (StartupPhase::AwaitingConsumer, ReadinessSignal::ConsumerReady) => Ok(
            StartupPhase::AwaitingListener,
        ),
        (StartupPhase::AwaitingListener, ReadinessSignal::ListenerReady) => Ok(
            StartupPhase::Started,
        ),
        (p, s) => Err(StartupViolation { phase: p, signal: s }),
    }
}

/// Consumes one readiness signal. The consumer's signal takes the routine
/// from waiting-for-consumer to waiting-for-listener; the listener's then
/// completes the startup. Any other signal is refused as a contract
/// violation and leaves the phase as it was.
pub fn startup_advance(phase: StartupPhase, signal: ReadinessSignal) -> (r: Result<
    StartupPhase,
    StartupViolation,
>)
    ensures
        r == startup_advance_spec(phase, signal),
{
    match (phase, signal) {
        (StartupPhase::AwaitingConsumer, ReadinessSignal::ConsumerReady) => Ok(
            StartupPhase::AwaitingListener,
        ),
        (StartupPhase::AwaitingListener, ReadinessSignal::ListenerReady) => Ok(
            StartupPhase::Started,
        ),
        (p, s) => Err(StartupViolation { phase: p, signal: s }),
    }
}

/// Whether `start` may return the server: only in the `Started` phase.
pub fn startup_complete(phase: StartupPhase) -> (b: bool)
    ensures
        b == (phase is Started),
{
    match phase {
        StartupPhase::Started => true,
        _ => false,
    }
}

/// Runs the startup routine over a whole sequence of signals, stopping at
/// the first violation.
pub open spec fn startup_run(phase: StartupPhase, signals: Seq<ReadinessSignal>) -> Result<
    StartupPhase,
    StartupViolation,
>
    decreases signals.len(),
{
    if signals.len() == 0 {
        Ok(phase)
    } else {
        match startup_advance_spec(phase, signals[0]) {
            Ok(next) => startup_run(next, signals.drop_first()),
            Err(v) => Err(v),
        }
    }
}

/// `start` never returns a server before both the consumer and the
/// listener are live: however the signals arrive, a run that begins before
/// the consumer is ready and ends in the `Started` phase has consumed a
/// consumer-readiness signal and a listener-readiness signal.
pub proof fn lemma_started_needs_both(signals: Seq<ReadinessSignal>)
    requires
        startup_run(StartupPhase::AwaitingConsumer, signals) == Ok::<
            StartupPhase,
            StartupViolation,
        >(StartupPhase::Started),
    ensures
        signals.contains(ReadinessSignal::ConsumerReady),
        signals.contains(ReadinessSignal::ListenerReady),
    decreases signals.len(),
{
    assert(signals.len() > 0);
    assert(signals[0] == ReadinessSignal::ConsumerReady);
    lemma_awaiting_listener_needs_listener(signals.drop_first());
    let j = choose|j: int|
        0 <= j < signals.drop_first().len() && signals.drop_first()[j]
            == ReadinessSignal::ListenerReady;
    assert(signals[j + 1] == ReadinessSignal::ListenerReady);
}

/// From the phase that waits on the listener, a run that ends `Started`
/// has consumed a listener-readiness signal.
proof fn lemma_awaiting_listener_needs_listener(signals: Seq<ReadinessSignal>)
    requires
        startup_run(StartupPhase::AwaitingListener, signals) == Ok::<
            StartupPhase,
            StartupViolation,
        >(StartupPhase::Started),
    ensures
        signals.contains(ReadinessSignal::ListenerReady),
    decreases signals.len(),
{
    assert(signals.len() > 0);
    assert(signals[0] == ReadinessSignal::ListenerReady);
}

} // verus!
