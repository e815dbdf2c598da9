//! The write model: what one record, and one batch, does to the store.
//!
//! Every store mutation the pipeline issues is mirrored by a ghost operation
//! log. A record either is skipped (no `event_type`), fails fatally (a
//! required field is missing or malformed), or contributes exactly one write
//! statement; a batch wraps its writes in a begin/commit pair, the store's
//! atomic transaction boundary.

use crate::cache::resolve_spec;
use crate::event::{
    alert_label, anomaly_label, dest_ip_of, digits_val, event_type_of, fileinfo_label,
    flow_id_digits_of, flow_label, pcap_of, src_ip_of, timestamp_of, EventError,
};
use crate::ip::format_ip;
use crate::timestamp::ts_encoded;
use vstd::prelude::*;

verus! {

/// The store table a non-"flow" record is written to.
#[derive(Clone, Copy, Debug, PartialEq, Eq, Structural)]
pub enum EventTable {
    /// The `alert` table.
    Alert,
    /// The `anomaly` table.
    Anomaly,
    /// The `fileinfo` table.
    Fileinfo,
    /// The generic app-event table, for every other event type.
    App,
}

/// One insert statement, with the values bound to it.
pub enum WriteStmt {
    /// A row of the `flow` table.
    Flow {
        /// The flow id bound to the row's natural key column.
        flow_id: u64,
        /// The normalized source address text.
        src: Seq<u8>,
        /// The normalized destination address text.
        dest: Seq<u8>,
        /// The resolved capture file name.
        pcap: Seq<u8>,
        /// The full raw record, for the store's own field projection.
        raw: Seq<u8>,
    },
    /// A row of one of the per-type event tables.
    Event {
        /// The table written to.
        table: EventTable,
        /// The record's `event_type` value, which names the sub-document the
        /// store projects out, and doubles as the generic table's app-proto.
        ev_type: Seq<u8>,
        /// The flow id the event references.
        flow_id: u64,
        /// The encoded timestamp, if the record carries a well-formed one.
        ts: Option<int>,
        /// The full raw record.
        raw: Seq<u8>,
    },
}

/// One operation issued to the store, in issue order.
pub enum StoreOp {
    /// A pragma was applied while the store was opened.
    Pragma {
        /// The pragma's name.
        name: Seq<char>,
        /// The value it was set to.
        value: Seq<char>,
    },
    /// The externally fixed schema text was run while the store was opened.
    Schema {
        /// The schema text.
        sql: Seq<char>,
    },
    /// A transaction was opened.
    Begin,
    /// The open transaction was committed.
    Commit,
    /// An insert statement ran inside the open transaction.
    Write(WriteStmt),
}

/// The table for a non-"flow" event type value.
pub open spec fn table_of(t: Seq<u8>) -> EventTable {
    if t == alert_label() {
        EventTable::Alert
    } else if t == anomaly_label() {
        EventTable::Anomaly
    } else if t == fileinfo_label() {
        EventTable::Fileinfo
    } else {
        EventTable::App
    }
}

/// The record's flow id digits denote a value that fits 64 unsigned bits.
pub open spec fn flow_id_ok(b: Seq<u8>) -> bool {
    match flow_id_digits_of(b) {
        Some(d) => digits_val(d) <= u64::MAX,
        None => false,
    }
}

/// The numeric value of the record's flow id digits (zero without any).
pub open spec fn flow_id_val(b: Seq<u8>) -> int {
    match flow_id_digits_of(b) {
        Some(d) => digits_val(d),
        None => 0,
    }
}

/// The encoded timestamp the record is stored with, if its `timestamp`
/// field exists and is well-formed.
pub open spec fn record_ts(b: Seq<u8>) -> Option<int> {
    match timestamp_of(b) {
        Some(t) => ts_encoded(t),
        None => None,
    }
}

/// The fatal contract violation a record carries, if any. Fatality depends
/// on the record alone: a "flow" record needs both addresses, a usable flow
/// id, and address text that normalizes; every other typed record needs a
/// usable flow id.
pub open spec fn fatal_of(b: Seq<u8>) -> Option<EventError> {
    match event_type_of(b) {
        None => None,
        Some(t) => if t == flow_label() {
            match (src_ip_of(b), dest_ip_of(b)) {
                (None, _) => Some(EventError::MissingSrcIp),
                (Some(src), None) => Some(EventError::MissingDestIp),
                (Some(src), Some(dest)) => if flow_id_digits_of(b) is None {
                    Some(EventError::MissingFlowId)
                } else if !flow_id_ok(b) {
                    Some(EventError::FlowIdTooLarge)
                } else if format_ip(src) is None {
                    Some(EventError::InvalidSrcIp)
                } else if format_ip(dest) is None {
                    Some(EventError::InvalidDestIp)
                } else {
                    None
                },
            }
        } else {
            if flow_id_digits_of(b) is None {
                Some(EventError::MissingFlowId)
            } else if !flow_id_ok(b) {
                Some(EventError::FlowIdTooLarge)
            } else {
                None
            }
        },
    }
}

/// The cache after one record: a non-"flow" record with a usable flow id
/// and a capture file name records that correlation; every other record
/// leaves the cache alone. The update precedes the record's own insert
/// attempt and survives it failing.
pub open spec fn cache_after(b: Seq<u8>, m: Map<u64, Seq<u8>>) -> Map<u64, Seq<u8>> {
    match event_type_of(b) {
        None => m,
        Some(t) => if t == flow_label() {
            m
        } else if flow_id_ok(b) {
            match pcap_of(b) {
                Some(p) => m.insert(flow_id_val(b) as u64, p),
                None => m,
            }
        } else {
            m
        },
    }
}

/// The insert statement for a record, given the cache state it meets.
/// Meaningful when the record has an `event_type` and no fatal violation.
pub open spec fn stmt_of(b: Seq<u8>, m: Map<u64, Seq<u8>>) -> WriteStmt {
    match event_type_of(b) {
        None => arbitrary(),
        Some(t) => if t == flow_label() {
            match (src_ip_of(b), dest_ip_of(b)) {
                (Some(src), Some(dest)) => WriteStmt::Flow {
                    flow_id: flow_id_val(b) as u64,
                    src: match format_ip(src) {
                        Some(v) => v,
                        None => Seq::empty(),
                    },
                    dest: match format_ip(dest) {
                        Some(v) => v,
                        None => Seq::empty(),
                    },
                    pcap: resolve_spec(m, flow_id_val(b) as u64, pcap_of(b)),
                    raw: b,
                },
                _ => arbitrary(),
            }
        } else {
            WriteStmt::Event {
                table: table_of(t),
                ev_type: t,
                flow_id: flow_id_val(b) as u64,
                ts: record_ts(b),
                raw: b,
            }
        },
    }
}

/// What one record does: nothing, a fatal error, or one write.
pub enum Plan {
    /// The record is not a loggable event; nothing happens.
    Skip,
    /// The record violates the upstream contract; nothing is written.
    Fatal(EventError),
    /// The record contributes this one insert statement.
    Write(WriteStmt),
}

/// The plan for a record against a cache state.
pub open spec fn plan_of(b: Seq<u8>, m: Map<u64, Seq<u8>>) -> Plan {
    match event_type_of(b) {
        None => Plan::Skip,
        Some(t) => match fatal_of(b) {
            Some(e) => Plan::Fatal(e),
            None => Plan::Write(stmt_of(b, m)),
        },
    }
}

/// The store operations one record contributes: its write, if it has one.
pub open spec fn stmt_ops(b: Seq<u8>, m: Map<u64, Seq<u8>>) -> Seq<StoreOp> {
    match plan_of(b, m) {
        Plan::Write(s) => seq![StoreOp::Write(s)],
        _ => Seq::empty(),
    }
}

/// The cache after a whole batch, record by record.
pub open spec fn batch_cache(rs: Seq<Seq<u8>>, m: Map<u64, Seq<u8>>) -> Map<u64, Seq<u8>>
    decreases rs.len(),
{
    if rs.len() == 0 {
        m
    } else {
        cache_after(rs.last(), batch_cache(rs.drop_last(), m))
    }
}

/// The write statements of a whole batch, each against the cache state its
/// record meets.
pub open spec fn batch_stmts(rs: Seq<Seq<u8>>, m: Map<u64, Seq<u8>>) -> Seq<StoreOp>
    decreases rs.len(),
{
    if rs.len() == 0 {
        Seq::empty()
    } else {
        batch_stmts(rs.drop_last(), m) + stmt_ops(rs.last(), batch_cache(rs.drop_last(), m))
    }
}

/// No record of the batch carries a fatal violation.
pub open spec fn batch_ok(rs: Seq<Seq<u8>>) -> bool {
    forall|i: int| 0 <= i < rs.len() ==> fatal_of(rs[i]) is None
}

/// A fatal record leaves the cache alone: its cache update is guarded by
/// the same flow id check that failed, and "flow" records never update it.
pub proof fn lemma_fatal_keeps_cache(b: Seq<u8>, m: Map<u64, Seq<u8>>)
    requires
        fatal_of(b) is Some,
    ensures
        cache_after(b, m) == m,
{
}

/// One step of a batch: extending the processed prefix by record `i`
/// applies that record's cache update and appends its write statements.
pub proof fn lemma_batch_step(rs: Seq<Seq<u8>>, m: Map<u64, Seq<u8>>, i: int)
    requires
        0 <= i < rs.len(),
    ensures
        batch_cache(rs.take(i + 1), m) == cache_after(rs[i], batch_cache(rs.take(i), m)),
        batch_stmts(rs.take(i + 1), m) == batch_stmts(rs.take(i), m) + stmt_ops(
            rs[i],
            batch_cache(rs.take(i), m),
        ),
{
    assert(rs.take(i + 1).drop_last() =~= rs.take(i));
    assert(rs.take(i + 1).last() == rs[i]);
}

/// The store operations of one committed batch: its statements wrapped in
/// the transaction boundary.
pub open spec fn batch_section(rs: Seq<Seq<u8>>, m: Map<u64, Seq<u8>>) -> Seq<StoreOp> {
    seq![StoreOp::Begin] + batch_stmts(rs, m) + seq![StoreOp::Commit]
}

/// The store operations of a run of committed batches, each given as the
/// batch's records and the cache state it started from.
pub open spec fn sections_log(bs: Seq<(Seq<Seq<u8>>, Map<u64, Seq<u8>>)>) -> Seq<StoreOp>
    decreases bs.len(),
{
    if bs.len() == 0 {
        Seq::empty()
    } else {
        sections_log(bs.drop_last()) + batch_section(bs.last().0, bs.last().1)
    }
}

/// Every batch of the run is non-empty and free of fatal records.
pub open spec fn sections_ok(bs: Seq<(Seq<Seq<u8>>, Map<u64, Seq<u8>>)>) -> bool {
    forall|k: int| 0 <= k < bs.len() ==> (#[trigger] bs[k]).0.len() >= 1 && batch_ok(bs[k].0)
}

/// A log tail left by an aborted cycle: empty when no transaction could
/// open, else one `Begin` followed by insert statements and never a
/// `Commit` — the abandoned transaction that the store rolls back.
pub open spec fn uncommitted_tail(t: Seq<StoreOp>) -> bool {
    t.len() == 0 || (t[0] is Begin && (forall|k: int| 1 <= k < t.len() ==> t[k] is Write))
}

/// A batch's statement section holds insert statements only: every
/// transaction boundary in the log comes from the batch loop itself, never
/// from a record.
pub proof fn lemma_batch_stmts_are_writes(rs: Seq<Seq<u8>>, m: Map<u64, Seq<u8>>)
    ensures
        forall|k: int|
            0 <= k < batch_stmts(rs, m).len() ==> #[trigger] batch_stmts(rs, m)[k] is Write,
        batch_stmts(rs, m).len() <= rs.len(),
    decreases rs.len(),
{
    if rs.len() > 0 {
        lemma_batch_stmts_are_writes(rs.drop_last(), m);
    }
}

/// A transaction opened for a batch and not committed is an uncommitted
/// tail: one `Begin` followed by the batch's writes.
pub proof fn lemma_begin_stmts_tail(rs: Seq<Seq<u8>>, m: Map<u64, Seq<u8>>)
    ensures
        uncommitted_tail(seq![StoreOp::Begin] + batch_stmts(rs, m)),
{
    lemma_batch_stmts_are_writes(rs, m);
    let t = seq![StoreOp::Begin] + batch_stmts(rs, m);
    assert(t[0] is Begin);
    assert forall|k: int| 1 <= k < t.len() implies t[k] is Write by {
        assert(t[k] == batch_stmts(rs, m)[k - 1]);
    }
}

/// A record without an `event_type` field is inert: it plans no write,
/// changes no cache state, and raises no error.
pub proof fn lemma_not_an_event_is_inert(b: Seq<u8>, m: Map<u64, Seq<u8>>)
    requires
        event_type_of(b) is None,
    ensures
        plan_of(b, m) == Plan::Skip,
        cache_after(b, m) == m,
        fatal_of(b) is None,
{
}

/// A non-"flow" record carrying a usable flow id and a capture file name
/// correlates them: a later "flow" record with the same flow id resolves to
/// that file name, whatever it carries inline.
pub proof fn lemma_sibling_pcap_correlates(
    b: Seq<u8>,
    m: Map<u64, Seq<u8>>,
    p: Seq<u8>,
    inline: Option<Seq<u8>>,
)
    requires
        event_type_of(b) matches Some(t) && t != flow_label(),
        flow_id_ok(b),
        pcap_of(b) == Some(p),
    ensures
        resolve_spec(cache_after(b, m), flow_id_val(b) as u64, inline) == p,
{
}

/// After a non-"flow" record correlates its capture file name, the write
/// statement planned for a "flow" record with the same flow id binds
/// exactly that name, whatever the flow record carries inline.
pub proof fn lemma_flow_stmt_uses_sibling_pcap(
    b1: Seq<u8>,
    b2: Seq<u8>,
    m: Map<u64, Seq<u8>>,
    p: Seq<u8>,
)
    requires
        event_type_of(b1) matches Some(t) && t != flow_label(),
        flow_id_ok(b1),
        pcap_of(b1) == Some(p),
        crate::event::is_flow(b2),
        fatal_of(b2) is None,
        flow_id_val(b2) == flow_id_val(b1),
    ensures
        plan_of(b2, cache_after(b1, m)) matches Plan::Write(WriteStmt::Flow { pcap: pc, .. })
            && pc == p,
{
}

/// The write statement planned for a "flow" record whose flow id was never
/// correlated binds the record's own inline capture file name, or the
/// empty string without one.
pub proof fn lemma_flow_stmt_falls_back(b: Seq<u8>, m: Map<u64, Seq<u8>>)
    requires
        crate::event::is_flow(b),
        fatal_of(b) is None,
        !m.contains_key(flow_id_val(b) as u64),
    ensures
        plan_of(b, m) matches Plan::Write(WriteStmt::Flow { pcap: pc, .. }) && pc == match pcap_of(
            b,
        ) {
            Some(q) => q,
            None => Seq::<u8>::empty(),
        },
{
}

/// A "flow" record whose flow id was never recorded in the cache resolves
/// to its own inline capture file name, or to the empty string without one.
pub proof fn lemma_unseen_flow_falls_back(b: Seq<u8>, m: Map<u64, Seq<u8>>)
    requires
        !m.contains_key(flow_id_val(b) as u64),
    ensures
        resolve_spec(m, flow_id_val(b) as u64, pcap_of(b)) == match pcap_of(b) {
            Some(p) => p,
            None => Seq::<u8>::empty(),
        },
{
}

} // verus!
