//! Tests for the bounded hand-off queue's producer side.

use std::sync::mpsc;
use suricata_eve_sqlite_output::channel::{enqueue_record, EnqueueOutcome};

#[test]
fn enqueue_beyond_the_bound_drops_without_blocking() {
    let (tx, _rx) = mpsc::sync_channel::<String>(2);
    assert_eq!(enqueue_record(&tx, "a".to_string()), EnqueueOutcome::Accepted);
    assert_eq!(enqueue_record(&tx, "b".to_string()), EnqueueOutcome::Accepted);
    // The queue holds its bound and nothing consumes: the attempt returns
    // at once and the record is dropped.
    assert_eq!(enqueue_record(&tx, "c".to_string()), EnqueueOutcome::DroppedFull);
    assert_eq!(enqueue_record(&tx, "d".to_string()), EnqueueOutcome::DroppedFull);
}

#[test]
fn enqueue_after_consumer_gone_reports_disconnected() {
    let (tx, rx) = mpsc::sync_channel::<String>(2);
    drop(rx);
    assert_eq!(
        enqueue_record(&tx, "a".to_string()),
        EnqueueOutcome::Disconnected
    );
}
