use metrics_agg::ingest::{EndpointError, IngestDirective, IngestEvent, ShutdownSignal, ingest_step};
use metrics_agg::message::MetricCollection;
use metrics_agg::metric::{Metric, MetricUnit, MetricValue};

fn batch(timestamp: u64) -> MetricCollection {
    let metrics = vec![Metric::new(
        "m".to_string(),
        MetricUnit::empty(),
        MetricValue::Integer(1),
    )];
    MetricCollection::new("tcp://src".to_string(), "metrics".to_string(), timestamp, metrics)
}

#[test]
fn collection_accessors() {
    let c = batch(77);
    assert_eq!(c.get_timestamp(), 77);
    assert_eq!(c.get_metrics_ref().len(), 1);
    assert_eq!(c.get_metrics_ref()[0].get_label(), "m");
    let metrics = c.get_metrics();
    assert_eq!(metrics.len(), 1);
}

#[test]
fn ingest_decisions() {
    match ingest_step(IngestEvent::Received(batch(5))) {
        IngestDirective::ApplyBatch(b) => assert_eq!(b.get_timestamp(), 5),
        _ => panic!("a received batch must be applied"),
    }
    match ingest_step(IngestEvent::TransportError(EndpointError::new("boom"))) {
        IngestDirective::NoteReconnect { reset_deadline } => assert!(!reset_deadline),
        _ => panic!("a transport error must flag a reconnect"),
    }
    match ingest_step(IngestEvent::TimedOut) {
        IngestDirective::NoteReconnect { reset_deadline } => assert!(reset_deadline),
        _ => panic!("an idle timeout must flag a reconnect"),
    }
    assert!(matches!(ingest_step(IngestEvent::ShutdownRequested), IngestDirective::Stop));
}

#[test]
fn idempotent_shutdown() {
    let mut signal = ShutdownSignal::new();
    // the first request sends the one-shot signal
    assert!(signal.fire());
    // the second request sends nothing and does not block on a joined task
    assert!(!signal.fire());
    assert!(!signal.fire());
}

#[test]
fn endpoint_error_text() {
    let e = EndpointError::new("Receive failed");
    assert_eq!(e.msg, "Receive failed");
}
