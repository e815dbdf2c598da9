//! End-to-end tests: records through the hand-off queue, the writer, and a
//! real SQLite store, then read back with a second connection.

use std::sync::mpsc;
use suricata_eve_sqlite_output::event::EventError;
use suricata_eve_sqlite_output::store::WriteError;
use suricata_eve_sqlite_output::writer::Database;

/// The externally fixed store schema: the tables the writer inserts into,
/// each with the uniqueness constraint that gives "insert or ignore" its
/// at-most-once meaning. Dropped first so every test starts clean.
const SCHEMA: &str = "
DROP TABLE IF EXISTS flow;
DROP TABLE IF EXISTS alert;
DROP TABLE IF EXISTS anomaly;
DROP TABLE IF EXISTS fileinfo;
DROP TABLE IF EXISTS 'app-event';
CREATE TABLE flow (id INTEGER PRIMARY KEY, src_ip TEXT, src_port INTEGER, dest_ip TEXT, dest_port INTEGER, pcap_filename TEXT, proto TEXT, app_proto TEXT, metadata TEXT, extra_data TEXT);
CREATE TABLE alert (flow_id INTEGER, timestamp INTEGER, extra_data TEXT, UNIQUE(flow_id, timestamp, extra_data));
CREATE TABLE anomaly (flow_id INTEGER, timestamp INTEGER, extra_data TEXT, UNIQUE(flow_id, timestamp, extra_data));
CREATE TABLE fileinfo (flow_id INTEGER, timestamp INTEGER, extra_data TEXT, UNIQUE(flow_id, timestamp, extra_data));
CREATE TABLE 'app-event' (flow_id INTEGER, timestamp INTEGER, app_proto TEXT, extra_data TEXT, UNIQUE(flow_id, timestamp, app_proto, extra_data));
";

/// Feed `records` through a bounded channel into a writer on the database
/// at `path`, run the writer to completion, and report its outcome and
/// counters.
fn run_records(path: &str, records: &[&str]) -> (Option<WriteError>, u64, u64) {
    let (tx, rx) = mpsc::sync_channel(1000);
    let mut db = Database::new(path.to_string(), SCHEMA, rx).expect("open database");
    for r in records {
        tx.send(r.to_string()).expect("enqueue");
    }
    drop(tx);
    let err = db.run();
    let seen = db.records_seen();
    let inserted = db.records_inserted();
    (err, seen, inserted)
}

fn query_i64(path: &str, sql: &str) -> i64 {
    let conn = rusqlite::Connection::open(path).expect("reopen database");
    conn.query_row(sql, [], |row| row.get(0)).expect("query")
}

fn query_text(path: &str, sql: &str) -> String {
    let conn = rusqlite::Connection::open(path).expect("reopen database");
    conn.query_row(sql, [], |row| row.get(0)).expect("query")
}

const ALERT_42: &str = r#"{"timestamp":"2024-01-01T00:00:00.123456+0000","flow_id":42,"event_type":"alert","src_ip":"10.0.0.1","dest_ip":"10.0.0.2","alert":{"signature":"test sig"},"pcap_filename":"/capture/log.1.pcap"}"#;

const FLOW_42: &str = r#"{"timestamp":"2024-01-01T00:00:05.000000+0000","flow_id":42,"event_type":"flow","src_ip":"10.0.0.1","src_port":1111,"dest_ip":"2001:db8::7","dest_port":80,"proto":"TCP","app_proto":"http","metadata":{"flowbits":["x"]},"flow":{"pkts_toserver":3}}"#;

const FLOW_7_INLINE: &str = r#"{"timestamp":"2024-01-01T00:00:06.000000+0000","flow_id":7,"event_type":"flow","src_ip":"192.168.0.1","src_port":5,"dest_ip":"192.168.0.2","dest_port":6,"proto":"UDP","app_proto":"dns","pcap_filename":"/capture/inline.pcap","flow":{}}"#;

const FLOW_8_BARE: &str = r#"{"timestamp":"2024-01-01T00:00:07.000000+0000","flow_id":8,"event_type":"flow","src_ip":"192.168.0.3","src_port":5,"dest_ip":"192.168.0.4","dest_port":6,"proto":"UDP","app_proto":"dns","flow":{}}"#;

const STATS: &str = r#"{"timestamp":"2024-01-01T00:00:00.000000+0000","type":"stats","uptime":17}"#;

const HTTP_9: &str = r#"{"timestamp":"2024-01-01T00:01:00.500000+0000","flow_id":9,"event_type":"http","http":{"hostname":"example.test"},"pcap_filename":"/capture/h.pcap"}"#;

const ALERT_NO_FLOW_ID: &str = r#"{"timestamp":"2024-01-01T00:00:00.000000+0000","event_type":"alert","alert":{"signature":"broken"}}"#;

#[test]
fn record_without_event_type_writes_nothing() {
    let path = "/tmp/eve_test_not_an_event.db";
    let (err, seen, inserted) = run_records(path, &[STATS]);
    assert!(err.is_none());
    assert_eq!(seen, 1);
    assert_eq!(inserted, 0);
    assert_eq!(query_i64(path, "SELECT count(*) FROM flow"), 0);
    assert_eq!(query_i64(path, "SELECT count(*) FROM alert"), 0);
    assert_eq!(query_i64(path, "SELECT count(*) FROM 'app-event'"), 0);
}

#[test]
fn sibling_pcap_filename_wins_for_the_flow_record() {
    let path = "/tmp/eve_test_pcap_correlation.db";
    // The alert carries the capture file; the flow record carries none.
    let (err, seen, inserted) = run_records(path, &[ALERT_42, FLOW_42]);
    assert!(err.is_none());
    assert_eq!(seen, 2);
    assert_eq!(inserted, 2);
    assert_eq!(
        query_text(path, "SELECT pcap_filename FROM flow WHERE id = 42"),
        "/capture/log.1.pcap"
    );
    // Address normalization: IPv4 as-is, IPv6 bracketed.
    assert_eq!(query_text(path, "SELECT src_ip FROM flow WHERE id = 42"), "10.0.0.1");
    assert_eq!(query_text(path, "SELECT dest_ip FROM flow WHERE id = 42"), "[2001:db8::7]");
    // The store's own projections out of the raw record.
    assert_eq!(query_i64(path, "SELECT src_port FROM flow WHERE id = 42"), 1111);
    assert_eq!(query_text(path, "SELECT app_proto FROM flow WHERE id = 42"), "http");
}

#[test]
fn unseen_flow_id_falls_back_to_inline_or_empty() {
    let path = "/tmp/eve_test_pcap_fallback.db";
    let (err, _, _) = run_records(path, &[FLOW_7_INLINE, FLOW_8_BARE]);
    assert!(err.is_none());
    assert_eq!(
        query_text(path, "SELECT pcap_filename FROM flow WHERE id = 7"),
        "/capture/inline.pcap"
    );
    assert_eq!(query_text(path, "SELECT pcap_filename FROM flow WHERE id = 8"), "");
}

#[test]
fn redelivered_record_is_stored_once() {
    let path = "/tmp/eve_test_dedup.db";
    let (err, seen, inserted) = run_records(path, &[FLOW_7_INLINE, FLOW_7_INLINE]);
    assert!(err.is_none());
    assert_eq!(seen, 2);
    assert_eq!(inserted, 1);
    assert_eq!(query_i64(path, "SELECT count(*) FROM flow"), 1);
}

#[test]
fn a_batch_of_valid_records_commits_whole() {
    let path = "/tmp/eve_test_batch_commit.db";
    let (err, seen, inserted) = run_records(path, &[ALERT_42, FLOW_42, HTTP_9, STATS]);
    assert!(err.is_none());
    assert_eq!(seen, 4);
    assert_eq!(inserted, 3);
    assert_eq!(query_i64(path, "SELECT count(*) FROM alert"), 1);
    assert_eq!(query_i64(path, "SELECT count(*) FROM flow"), 1);
    assert_eq!(query_i64(path, "SELECT count(*) FROM 'app-event'"), 1);
    assert_eq!(query_text(path, "SELECT app_proto FROM 'app-event' WHERE flow_id = 9"), "http");
}

#[test]
fn a_fatal_record_fails_the_whole_batch() {
    let path = "/tmp/eve_test_batch_abort.db";
    // The valid alert is written inside the transaction, but the batch
    // never commits: the missing flow id is fatal.
    let (err, seen, inserted) = run_records(path, &[ALERT_42, ALERT_NO_FLOW_ID]);
    assert!(matches!(
        err,
        Some(WriteError::Event(EventError::MissingFlowId))
    ));
    assert_eq!(seen, 2);
    // the aborted batch contributes nothing to the inserted counter
    assert_eq!(inserted, 0);
    assert_eq!(query_i64(path, "SELECT count(*) FROM alert"), 0);
}

#[test]
fn alert_timestamp_is_encoded_in_microseconds() {
    let path = "/tmp/eve_test_timestamp.db";
    let (err, _, _) = run_records(path, &[ALERT_42]);
    assert!(err.is_none());
    assert_eq!(
        query_i64(path, "SELECT timestamp FROM alert WHERE flow_id = 42"),
        1704067200 * 1_000_000 + 123456
    );
    assert_eq!(
        query_text(path, "SELECT extra_data FROM alert WHERE flow_id = 42"),
        r#"{"signature":"test sig"}"#
    );
}

#[test]
fn flow_id_too_large_is_fatal() {
    let path = "/tmp/eve_test_flow_id_large.db";
    let rec = r#"{"timestamp":"2024-01-01T00:00:00.000000+0000","flow_id":18446744073709551616,"event_type":"alert","alert":{}}"#;
    let (err, _, _) = run_records(path, &[rec]);
    assert!(matches!(
        err,
        Some(WriteError::Event(EventError::FlowIdTooLarge))
    ));
}

#[test]
fn flow_record_missing_addresses_is_fatal() {
    let path = "/tmp/eve_test_flow_missing_src.db";
    let rec = r#"{"timestamp":"2024-01-01T00:00:00.000000+0000","flow_id":3,"event_type":"flow","flow":{}}"#;
    let (err, _, _) = run_records(path, &[rec]);
    assert!(matches!(
        err,
        Some(WriteError::Event(EventError::MissingSrcIp))
    ));
}

#[test]
fn flow_record_with_bad_address_text_is_fatal() {
    let path = "/tmp/eve_test_flow_bad_ip.db";
    let rec = r#"{"timestamp":"2024-01-01T00:00:00.000000+0000","flow_id":3,"event_type":"flow","src_ip":"not-an-address","dest_ip":"1.2.3.4","flow":{}}"#;
    let (err, _, _) = run_records(path, &[rec]);
    assert!(matches!(
        err,
        Some(WriteError::Event(EventError::InvalidSrcIp))
    ));
}

#[test]
fn store_errors_are_reported_as_store_errors() {
    let path = "/tmp/eve_test_store_error.db";
    let (tx, rx) = mpsc::sync_channel(10);
    // A schema without the alert table: the insert itself fails.
    let mut db = Database::new(
        path.to_string(),
        "DROP TABLE IF EXISTS alert;",
        rx,
    )
    .expect("open database");
    tx.send(ALERT_42.to_string()).expect("enqueue");
    drop(tx);
    let err = db.run();
    assert!(matches!(err, Some(WriteError::Store(_))));
    assert_eq!(db.records_inserted(), 0);
}

#[test]
fn anomaly_and_fileinfo_go_to_their_tables() {
    let path = "/tmp/eve_test_tables.db";
    let anomaly = r#"{"timestamp":"2024-01-01T00:02:00.000001+0000","flow_id":11,"event_type":"anomaly","anomaly":{"type":"decode"}}"#;
    let fileinfo = r#"{"timestamp":"2024-01-01T00:03:00.000002+0000","flow_id":12,"event_type":"fileinfo","fileinfo":{"filename":"a.bin"}}"#;
    let (err, _, inserted) = run_records(path, &[anomaly, fileinfo]);
    assert!(err.is_none());
    assert_eq!(inserted, 2);
    assert_eq!(query_i64(path, "SELECT count(*) FROM anomaly WHERE flow_id = 11"), 1);
    assert_eq!(query_i64(path, "SELECT count(*) FROM fileinfo WHERE flow_id = 12"), 1);
}
