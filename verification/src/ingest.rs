//! The decision core of the concurrent access wrapper: what the single
//! ingestion task does on each outcome of its three-way race, and the
//! one-shot shutdown handshake. The surrounding runtime (the socket, the
//! timer, the task and the lock) performs the actions this module decides.

use vstd::prelude::*;
use vstd::string::*;
use crate::message::MetricCollection;
use crate::metric::Metric;

verus! {

/// The error a metric endpoint reports.
#[derive(Debug, Clone)]
pub struct EndpointError {
    pub msg: String,
}

impl EndpointError {
    pub fn new(msg: &str) -> (r: EndpointError)
        ensures
            r.msg@ == msg@,
    {
        EndpointError { msg: String::from_str(msg) }
    }
}

/// The error the concurrent access wrapper reports to its owner.
#[derive(Debug, Clone)]
pub struct Error {
    pub msg: String,
}

/// A source of metric batches.
pub trait MetricEndpoint {

}

/// A consumer-side holder of one metric's current value, updated from the
/// store by label.
pub trait MetricAdapter {
    /// The label of the metric this adapter tracks.
    fn get_name(&self) -> &String;

    /// Takes the metric's new current value.
    fn update_current(&mut self, metric: &Metric);
}

/// What one iteration of the ingestion loop's three-way race observed.
pub enum IngestEvent {
    /// A whole batch arrived.
    Received(MetricCollection),
    /// The transport failed mid-stream; the batch is lost.
    TransportError(EndpointError),
    /// The idle timeout elapsed with nothing received.
    TimedOut,
    /// The one-shot shutdown signal fired.
    ShutdownRequested,
}

/// What the ingestion task does next. Only [`IngestDirective::Stop`] ends
/// the loop: transport errors and idle timeouts merely flag the connection
/// for re-establishment.
pub enum IngestDirective {
    /// Take the exclusive scope, apply the batch, release the scope, notify
    /// every registered callback, and reset the idle deadline.
    ApplyBatch(MetricCollection),
    /// Mark the connection as needing re-establishment; `reset_deadline`
    /// says whether the idle deadline restarts as well.
    NoteReconnect { reset_deadline: bool },
    /// Leave the loop at once, abandoning any in-flight receive.
    Stop,
}

/// The ingestion loop's decision for one observed event: a batch is applied
/// and resets the deadline, a transport error flags a reconnect, an elapsed
/// idle timeout flags a reconnect and restarts the deadline, and only the
/// shutdown signal stops the loop.
pub fn ingest_step(event: IngestEvent) -> (d: IngestDirective)
    ensures
        match event {
            IngestEvent::Received(batch) => d == IngestDirective::ApplyBatch(batch),
            IngestEvent::TransportError(_) => d == (IngestDirective::NoteReconnect {
                reset_deadline: false,
            }),
            IngestEvent::TimedOut => d == (IngestDirective::NoteReconnect {
                reset_deadline: true,
            }),
            IngestEvent::ShutdownRequested => d == IngestDirective::Stop,
        },
{
    match event {
        IngestEvent::Received(batch) => IngestDirective::ApplyBatch(batch),
        IngestEvent::TransportError(_) => IngestDirective::NoteReconnect {
            reset_deadline: false,
        },
        IngestEvent::TimedOut => IngestDirective::NoteReconnect { reset_deadline: true },
        IngestEvent::ShutdownRequested => IngestDirective::Stop,
    }
}

/// The controller's half of the one-shot shutdown handshake: the signal can
/// be sent at most once, and asking again after it was sent does nothing.
pub struct ShutdownSignal {
    fired: bool,
}

impl ShutdownSignal {
    /// Whether the signal has been sent.
    pub closed spec fn has_fired(&self) -> bool {
        self.fired
    }

    /// A fresh, unsent signal.
    pub fn new() -> (r: ShutdownSignal)
        ensures
            !r.has_fired(),
    {
        ShutdownSignal { fired: false }
    }

    /// Law (idempotent shutdown): asks to send the signal. The first call
    /// answers that the signal must be sent now; every later call answers
    /// that nothing is to be sent, so the caller neither signals twice nor
    /// waits again for a task that was already joined.
    pub fn fire(&mut self) -> (send_now: bool)
        ensures
            final(self).has_fired(),
            send_now == !old(self).has_fired(),
    {
        let send_now = !self.fired;
        self.fired = true;
        send_now
    }
}

} // verus!
