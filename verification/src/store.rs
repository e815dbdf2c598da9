//! The embedded store connection, and the ghost log of what was issued to
//! it.
//!
//! The store executes SQL through the `rusqlite` crate. Every call runs
//! through a trusted wrapper here; the surrounding logic is verified against
//! the operation log, which records, in order, each transaction boundary and
//! each insert statement together with the values bound to it. Operations
//! between a `Begin` and its `Commit` are durable only with the `Commit`:
//! that is the store's atomic transaction contract.

use crate::event::EventError;
use crate::model::{EventTable, StoreOp, WriteStmt};
use vstd::prelude::*;
use vstd::string::StringSliceAdditionalSpecFns;

verus! {

/// The `rusqlite` connection type, opaque to the verifier.
#[verifier::external_type_specification]
#[verifier::external_body]
pub struct ExConnection(rusqlite::Connection);

/// The `rusqlite` error type, opaque to the verifier.
#[verifier::external_type_specification]
#[verifier::external_body]
pub struct ExSqlError(rusqlite::Error);

/// How a write fails: an upstream contract violation in the record itself,
/// or an error from the embedded store.
#[derive(Debug)]
pub enum WriteError {
    /// The record matched a dispatch path but lacks a field that path
    /// requires; fatal, never retried.
    Event(EventError),
    /// The store reported an error; the batching loop stops.
    Store(rusqlite::Error),
}

/// Relies on `rusqlite::Connection::open`: opens (creating if missing) the
/// SQLite database at `path`.
#[verifier::external_body]
fn open_connection(path: &str) -> Result<rusqlite::Connection, rusqlite::Error> {
    rusqlite::Connection::open(path)
}

/// Relies on `rusqlite::Connection::pragma_update`: sets the pragma `name`
/// to `value` on the main database.
#[verifier::external_body]
fn set_pragma(conn: &rusqlite::Connection, name: &str, value: &str) -> Result<
    (),
    rusqlite::Error,
> {
    conn.pragma_update(None, name, value)
}

/// Relies on `rusqlite::Connection::execute_batch`: runs the semicolon-
/// separated statements of `sql`, stopping at the first error.
#[verifier::external_body]
fn run_sql(conn: &rusqlite::Connection, sql: &str) -> Result<(), rusqlite::Error> {
    conn.execute_batch(sql)
}

/// Relies on `rusqlite::Connection::execute`: runs one parameterized
/// statement and reports how many rows changed, SQLite's changed-row count
/// for that one statement — zero or one for a single-row INSERT OR IGNORE,
/// which the admitted statement texts are. The id is stored as the store's
/// 64-bit signed integer (an id above that range wraps to a negative key).
/// The byte parameters are bound as text: they are slices of UTF-8 record
/// text cut at ASCII delimiters, so the lossy conversion is the identity.
#[verifier::external_body]
fn exec_flow_insert(
    conn: &rusqlite::Connection,
    sql: &str,
    raw: &str,
    flow_id: u64,
    src: &[u8],
    dest: &[u8],
    pcap: &[u8],
) -> (r: Result<u64, rusqlite::Error>)
    requires
        sql@ == FLOW_SQL@,
    ensures
        r matches Ok(n) ==> n <= 1,
{
    conn.execute(
        sql,
        (
            raw,
            flow_id as i64,
            String::from_utf8_lossy(src).into_owned(),
            String::from_utf8_lossy(dest).into_owned(),
            String::from_utf8_lossy(pcap).into_owned(),
        ),
    ).map(|n| n as u64)
}

/// Relies on `rusqlite::Connection::execute`, as `exec_flow_insert` does,
/// for the per-type event tables; a missing timestamp is bound as NULL.
#[verifier::external_body]
fn exec_event_insert(
    conn: &rusqlite::Connection,
    sql: &str,
    raw: &str,
    ev_type: &[u8],
    flow_id: u64,
    ts: Option<i64>,
) -> (r: Result<u64, rusqlite::Error>)
    requires
        sql@ == ALERT_SQL@ || sql@ == ANOMALY_SQL@ || sql@ == FILEINFO_SQL@ || sql@
            == APP_EVENT_SQL@,
    ensures
        r matches Ok(n) ==> n <= 1,
{
    conn.execute(
        sql,
        (raw, String::from_utf8_lossy(ev_type).into_owned(), flow_id as i64, ts),
    ).map(|n| n as u64)
}

/// The single-row insert statement for the `flow` table. The store itself
/// projects the remaining columns out of the raw record; that projection is
/// part of the fixed schema contract.
pub const FLOW_SQL: &'static str = "INSERT OR IGNORE INTO flow (id, src_ip, src_port, dest_ip, dest_port, pcap_filename, proto, app_proto, metadata, extra_data) VALUES (?2, ?3, ?1->>'src_port', ?4, ?1->>'dest_port', ?5, ?1->>'proto', ?1->>'app_proto', ?1->'metadata', ?1->'flow')";

/// The single-row insert statement for the `alert` table: the event type
/// names the sub-document the store projects out.
pub const ALERT_SQL: &'static str = "INSERT OR IGNORE INTO alert (flow_id, timestamp, extra_data) VALUES (?3, ?4, json_extract(?1, '$.' || ?2))";

/// The single-row insert statement for the `anomaly` table.
pub const ANOMALY_SQL: &'static str = "INSERT OR IGNORE INTO anomaly (flow_id, timestamp, extra_data) VALUES (?3, ?4, json_extract(?1, '$.' || ?2))";

/// The single-row insert statement for the `fileinfo` table.
pub const FILEINFO_SQL: &'static str = "INSERT OR IGNORE INTO fileinfo (flow_id, timestamp, extra_data) VALUES (?3, ?4, json_extract(?1, '$.' || ?2))";

/// The single-row insert statement for the generic app-event table, which
/// additionally stores the event type as the app protocol.
pub const APP_EVENT_SQL: &'static str = "INSERT OR IGNORE INTO 'app-event' (flow_id, timestamp, app_proto, extra_data) VALUES (?3, ?4, ?2, json_extract(?1, '$.' || ?2))";

/// The insert statement for a non-"flow" table.
fn event_sql(table: EventTable) -> (r: &'static str)
    ensures
        r@ == ALERT_SQL@ || r@ == ANOMALY_SQL@ || r@ == FILEINFO_SQL@ || r@ == APP_EVENT_SQL@,
{
    match table {
        EventTable::Alert => ALERT_SQL,
        EventTable::Anomaly => ANOMALY_SQL,
        EventTable::Fileinfo => FILEINFO_SQL,
        EventTable::App => APP_EVENT_SQL,
    }
}

/// The operations a fresh store issues while it opens, in order: the
/// journal tuned for append throughput (write-ahead journaling, relaxed
/// synchronous flushing), then the externally fixed schema text.
pub open spec fn setup_log(schema: Seq<char>) -> Seq<StoreOp> {
    seq![
        StoreOp::Pragma { name: "journal_mode"@, value: "wal"@ },
        StoreOp::Pragma { name: "synchronous"@, value: "off"@ },
        StoreOp::Schema { sql: schema },
    ]
}

/// The writable store handle, with the ghost log of issued operations.
pub struct Store {
    conn: rusqlite::Connection,
    ops: Ghost<Seq<StoreOp>>,
}

impl Store {
    /// The operations issued to the store so far, in issue order.
    pub closed spec fn log(&self) -> Seq<StoreOp> {
        self.ops@
    }

    /// Open the store and issue its setup: the two journal pragmas, then
    /// the externally fixed schema text. On success the log holds exactly
    /// those operations, in order.
    pub fn open(path: &str, schema: &str) -> (r: Result<Store, WriteError>)
        ensures
            match r {
                Ok(s) => s.log() == setup_log(schema@),
                Err(e) => e matches WriteError::Store(_),
            },
    {
        let ghost mut ops: Seq<StoreOp> = Seq::empty();
        let conn = match open_connection(path) {
            Ok(c) => c,
            Err(e) => {
                return Err(WriteError::Store(e));
            },
        };
        match set_pragma(&conn, "journal_mode", "wal") {
            Ok(()) => {
                proof {
                    ops = ops.push(StoreOp::Pragma { name: "journal_mode"@, value: "wal"@ });
                }
            },
            Err(e) => {
                return Err(WriteError::Store(e));
            },
        };
        match set_pragma(&conn, "synchronous", "off") {
            Ok(()) => {
                proof {
                    ops = ops.push(StoreOp::Pragma { name: "synchronous"@, value: "off"@ });
                }
            },
            Err(e) => {
                return Err(WriteError::Store(e));
            },
        };
        match run_sql(&conn, schema) {
            Ok(()) => {
                proof {
                    ops = ops.push(StoreOp::Schema { sql: schema@ });
                }
            },
            Err(e) => {
                return Err(WriteError::Store(e));
            },
        };
        proof {
            assert(ops =~= setup_log(schema@));
        }
        Ok(Store { conn, ops: Ghost(ops) })
    }

    /// Open a transaction.
    pub fn begin(&mut self) -> (r: Result<(), WriteError>)
        ensures
            match r {
                Ok(_) => final(self).log() == old(self).log().push(StoreOp::Begin),
                Err(e) => final(self).log() == old(self).log() && (e matches WriteError::Store(
                    _,
                )),
            },
    {
        match run_sql(&self.conn, "BEGIN") {
            Ok(()) => {
                self.ops = Ghost(self.ops@.push(StoreOp::Begin));
                Ok(())
            },
            Err(e) => Err(WriteError::Store(e)),
        }
    }

    /// Commit the open transaction; only now do its writes become durable.
    pub fn commit(&mut self) -> (r: Result<(), WriteError>)
        ensures
            match r {
                Ok(_) => final(self).log() == old(self).log().push(StoreOp::Commit),
                Err(e) => final(self).log() == old(self).log() && (e matches WriteError::Store(
                    _,
                )),
            },
    {
        match run_sql(&self.conn, "COMMIT") {
            Ok(()) => {
                self.ops = Ghost(self.ops@.push(StoreOp::Commit));
                Ok(())
            },
            Err(e) => Err(WriteError::Store(e)),
        }
    }

    /// Insert one `flow` row inside the open transaction, and log it.
    pub(crate) fn insert_flow(
        &mut self,
        flow_id: u64,
        src: &Vec<u8>,
        dest: &Vec<u8>,
        pcap: &Vec<u8>,
        raw: &str,
    ) -> (r: Result<u64, WriteError>)
        ensures
            match r {
                Ok(n) => n <= 1 && final(self).log() == old(self).log().push(
                    StoreOp::Write(
                        WriteStmt::Flow {
                            flow_id,
                            src: src@,
                            dest: dest@,
                            pcap: pcap@,
                            raw: raw.spec_bytes(),
                        },
                    ),
                ),
                Err(e) => final(self).log() == old(self).log() && (e matches WriteError::Store(
                    _,
                )),
            },
    {
        match exec_flow_insert(
            &self.conn,
            FLOW_SQL,
            raw,
            flow_id,
            src.as_slice(),
            dest.as_slice(),
            pcap.as_slice(),
        ) {
            Ok(n) => {
                self.ops = Ghost(
                    self.ops@.push(
                        StoreOp::Write(
                            WriteStmt::Flow {
                                flow_id,
                                src: src@,
                                dest: dest@,
                                pcap: pcap@,
                                raw: raw.spec_bytes(),
                            },
                        ),
                    ),
                );
                Ok(n)
            },
            Err(e) => Err(WriteError::Store(e)),
        }
    }

    /// Insert one row of a per-type event table inside the open
    /// transaction, and log it.
    pub(crate) fn insert_event(
        &mut self,
        table: EventTable,
        ev_type: &Vec<u8>,
        flow_id: u64,
        ts: Option<i64>,
        raw: &str,
    ) -> (r: Result<u64, WriteError>)
        ensures
            match r {
                Ok(n) => n <= 1 && final(self).log() == old(self).log().push(
                    StoreOp::Write(
                        WriteStmt::Event {
                            table,
                            ev_type: ev_type@,
                            flow_id,
                            ts: match ts {
                                Some(v) => Some(v as int),
                                None => None,
                            },
                            raw: raw.spec_bytes(),
                        },
                    ),
                ),
                Err(e) => final(self).log() == old(self).log() && (e matches WriteError::Store(
                    _,
                )),
            },
    {
        match exec_event_insert(&self.conn, event_sql(table), raw, ev_type.as_slice(), flow_id, ts) {
            Ok(n) => {
                self.ops = Ghost(
                    self.ops@.push(
                        StoreOp::Write(
                            WriteStmt::Event {
                                table,
                                ev_type: ev_type@,
                                flow_id,
                                ts: match ts {
                                    Some(v) => Some(v as int),
                                    None => None,
                                },
                                raw: raw.spec_bytes(),
                            },
                        ),
                    ),
                );
                Ok(n)
            },
            Err(e) => Err(WriteError::Store(e)),
        }
    }
}

} // verus!
