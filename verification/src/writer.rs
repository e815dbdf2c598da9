//! The batch writer: the single consumer that drains the hand-off queue
//! and persists records.
//!
//! Each cycle blocks until one record is available, then pulls every record
//! already queued behind it, and commits the whole group as one atomic
//! transaction. A store failure is fatal: the writer stops, abandoning what
//! is still queued. A record that violates the upstream contract fails the
//! open transaction the same way.

use crate::cache::FlowPcapCache;
use crate::channel::{recv_record, try_recv_record};
use crate::event::{
    alert_label_vec, anomaly_label_vec, event_type_pat_vec, fileinfo_label_vec, flow_id_pat_vec,
    flow_label_vec, parse_u64_digits, pcap_pat_vec, src_ip_pat_vec, timestamp_pat_vec,
    dest_ip_pat_vec, EventError,
};
use crate::ip::format_ip_addr;
use crate::model::{
    batch_cache, batch_ok, batch_section, batch_stmts, cache_after, fatal_of,
    lemma_batch_step, lemma_begin_stmts_tail, lemma_fatal_keeps_cache, plan_of, sections_log,
    sections_ok, uncommitted_tail, EventTable, Plan, StoreOp,
};
use crate::scan::{bytes_eq, find_num_field, find_str_field};
use crate::store::{setup_log, Store, WriteError};
use crate::timestamp::encode_timestamp;
use crate::sat_add_u64;
use vstd::prelude::*;
use vstd::string::StringSliceAdditionalSpecFns;

verus! {

/// The byte view of a batch of records.
pub open spec fn recs_bytes(rs: Seq<String>) -> Seq<Seq<u8>> {
    rs.map_values(|s: String| vstd::utf8::encode_utf8(s@))
}

/// Write one record into the open transaction: recognize its fields,
/// update the correlation cache, and run the per-type insert. A record
/// without an `event_type` does nothing and reports zero rows; a record
/// missing a required field is a fatal contract violation; otherwise the
/// record's one statement runs, and the store says how many rows changed:
/// one when the row is new, zero when a row with the same natural key
/// already existed (the store's deduplication), never more.
pub fn write_event(store: &mut Store, cache: &mut FlowPcapCache, buf: &str) -> (r: Result<
    u64,
    WriteError,
>)
    ensures
        final(cache)@ == cache_after(buf.spec_bytes(), old(cache)@),
        r matches Ok(n) ==> n <= 1,
        match plan_of(buf.spec_bytes(), old(cache)@) {
            Plan::Skip => r == Ok::<u64, WriteError>(0u64)
                && final(store).log() == old(store).log(),
            Plan::Fatal(e) => (r matches Err(WriteError::Event(e2)) && e2 == e)
                && final(store).log() == old(store).log(),
            Plan::Write(s) => match r {
                Ok(_) => final(store).log() == old(store).log().push(StoreOp::Write(s)),
                Err(e) => (e matches WriteError::Store(_))
                    && final(store).log() == old(store).log(),
            },
        },
{
    let bytes: &[u8] = buf.as_bytes();
    let et_pat = event_type_pat_vec();
    let et = match find_str_field(bytes, et_pat.as_slice()) {
        Some(v) => v,
        None => {
            return Ok(0);
        },
    };
    let flow_lab = flow_label_vec();
    if !bytes_eq(et.as_slice(), flow_lab.as_slice()) {
        let fid_pat = flow_id_pat_vec();
        let fid_digits = match find_num_field(bytes, fid_pat.as_slice()) {
            Some(d) => d,
            None => {
                return Err(WriteError::Event(EventError::MissingFlowId));
            },
        };
        let fid = match parse_u64_digits(fid_digits.as_slice()) {
            Some(v) => v,
            None => {
                return Err(WriteError::Event(EventError::FlowIdTooLarge));
            },
        };
        let pcap_pat = pcap_pat_vec();
        match find_str_field(bytes, pcap_pat.as_slice()) {
            Some(p) => {
                cache.record(fid, p);
            },
            None => {},
        };
        let alert_lab = alert_label_vec();
        let anomaly_lab = anomaly_label_vec();
        let fileinfo_lab = fileinfo_label_vec();
        let table = if bytes_eq(et.as_slice(), alert_lab.as_slice()) {
            EventTable::Alert
        } else if bytes_eq(et.as_slice(), anomaly_lab.as_slice()) {
            EventTable::Anomaly
        } else if bytes_eq(et.as_slice(), fileinfo_lab.as_slice()) {
            EventTable::Fileinfo
        } else {
            EventTable::App
        };
        let ts_pat = timestamp_pat_vec();
        let ts: Option<i64> = match find_str_field(bytes, ts_pat.as_slice()) {
            Some(t) => encode_timestamp(t.as_slice()),
            None => None,
        };
        store.insert_event(table, &et, fid, ts, buf)
    } else {
        let src_pat = src_ip_pat_vec();
        let src = match find_str_field(bytes, src_pat.as_slice()) {
            Some(v) => v,
            None => {
                return Err(WriteError::Event(EventError::MissingSrcIp));
            },
        };
        let dest_pat = dest_ip_pat_vec();
        let dest = match find_str_field(bytes, dest_pat.as_slice()) {
            Some(v) => v,
            None => {
                return Err(WriteError::Event(EventError::MissingDestIp));
            },
        };
        let fid_pat = flow_id_pat_vec();
        let fid_digits = match find_num_field(bytes, fid_pat.as_slice()) {
            Some(d) => d,
            None => {
                return Err(WriteError::Event(EventError::MissingFlowId));
            },
        };
        let fid = match parse_u64_digits(fid_digits.as_slice()) {
            Some(v) => v,
            None => {
                return Err(WriteError::Event(EventError::FlowIdTooLarge));
            },
        };
        let srcf = match format_ip_addr(src.as_slice()) {
            Some(v) => v,
            None => {
                return Err(WriteError::Event(EventError::InvalidSrcIp));
            },
        };
        let destf = match format_ip_addr(dest.as_slice()) {
            Some(v) => v,
            None => {
                return Err(WriteError::Event(EventError::InvalidDestIp));
            },
        };
        let pcap_pat = pcap_pat_vec();
        let inline = find_str_field(bytes, pcap_pat.as_slice());
        let pcap = cache.resolve(fid, inline);
        store.insert_flow(fid, &srcf, &destf, &pcap, buf)
    }
}

/// Write a whole batch as one transaction: begin, one statement per
/// loggable record, commit. All of the batch commits or none of it: a
/// fatal record or a store error leaves the transaction uncommitted and is
/// handed back. The result counts the rows the store reported inserted,
/// which deduplication can keep below the batch's size.
pub fn write_batch(store: &mut Store, cache: &mut FlowPcapCache, records: &Vec<String>) -> (r:
    Result<u64, WriteError>)
    ensures
        ({
            let rs = recs_bytes(records@);
            let m0 = old(cache)@;
            let log0 = old(store).log();
            match r {
                Ok(k) => k <= rs.len() && batch_ok(rs) && final(cache)@ == batch_cache(rs, m0)
                    && final(store).log() == log0 + seq![StoreOp::Begin] + batch_stmts(rs, m0)
                        + seq![StoreOp::Commit],
                Err(WriteError::Event(e)) => exists|i: int|
                    0 <= i < rs.len() && fatal_of(rs[i]) == Some(e) && batch_ok(rs.take(i))
                        && final(cache)@ == batch_cache(rs.take(i), m0) && final(store).log()
                        == log0 + seq![StoreOp::Begin] + batch_stmts(rs.take(i), m0),
                Err(WriteError::Store(_)) => (final(store).log() == log0 && final(cache)@ == m0)
                    || (exists|i: int|
                        0 <= i < rs.len() && batch_ok(rs.take(i + 1))
                        && final(cache)@ == batch_cache(rs.take(i + 1), m0)
                        && final(store).log() == log0 + seq![StoreOp::Begin]
                            + batch_stmts(rs.take(i), m0))
                    || (batch_ok(rs) && final(cache)@ == batch_cache(rs, m0)
                        && final(store).log() == log0 + seq![StoreOp::Begin]
                            + batch_stmts(rs, m0)),
            }
        }),
{
    let ghost rs = recs_bytes(records@);
    let ghost m0 = cache@;
    let ghost log0 = store.log();
    match store.begin() {
        Ok(()) => (),
        Err(e) => {
            return Err(e);
        },
    };
    let mut inserted: u64 = 0;
    let n = records.len();
    let mut i: usize = 0;
    while i < n
        invariant
            0 <= i <= n,
            n == records@.len(),
            rs == recs_bytes(records@),
            rs.len() == records@.len(),
            m0 == old(cache)@,
            log0 == old(store).log(),
            batch_ok(rs.take(i as int)),
            inserted <= i,
            cache@ == batch_cache(rs.take(i as int), m0),
            store.log() == log0 + seq![StoreOp::Begin] + batch_stmts(rs.take(i as int), m0),
        decreases n - i,
    {
        proof {
            lemma_batch_step(rs, m0, i as int);
            assert(rs[i as int] == vstd::utf8::encode_utf8(records@[i as int]@));
        }
        let rec = records[i].as_str();
        let res = write_event(store, cache, rec);
        match res {
            Ok(k) => {
                inserted = sat_add_u64(inserted, k);
                proof {
                    if plan_of(rs[i as int], batch_cache(rs.take(i as int), m0)) is Fatal {
                        assert(false);
                    }
                    assert(batch_ok(rs.take(i as int + 1))) by {
                        assert(forall|m: int|
                            0 <= m < i as int + 1 ==> rs.take(i as int + 1)[m] == rs[m]);
                    }
                    if plan_of(rs[i as int], batch_cache(rs.take(i as int), m0)) is Skip {
                        assert(batch_stmts(rs.take(i as int + 1), m0) =~= batch_stmts(
                            rs.take(i as int),
                            m0,
                        ));
                    }
                }
            },
            Err(e) => {
                proof {
                    let prev = batch_cache(rs.take(i as int), m0);
                    match plan_of(rs[i as int], prev) {
                        Plan::Skip => {
                            assert(false);
                        },
                        Plan::Fatal(e0) => {
                            lemma_fatal_keeps_cache(rs[i as int], prev);
                        },
                        Plan::Write(s) => {
                            assert(batch_ok(rs.take(i as int + 1))) by {
                                assert(forall|m: int|
                                    0 <= m < i as int + 1 ==> rs.take(i as int + 1)[m] == rs[m]);
                            }
                        },
                    }
                }
                return Err(e);
            },
        };
        i += 1;
    }
    proof {
        assert(rs.take(n as int) =~= rs);
    }
    match store.commit() {
        Ok(()) => (),
        Err(e) => {
            return Err(e);
        },
    };
    Ok(inserted)
}

/// The writer: owns the store, the receiving half of the hand-off queue,
/// the correlation cache, and the running counters.
pub struct Database {
    store: Store,
    rx: std::sync::mpsc::Receiver<String>,
    cache: FlowPcapCache,
    count: u64,
    count_inserted: u64,
}

impl Database {
    /// Records seen by the writer so far (saturating).
    pub closed spec fn seen(&self) -> u64 {
        self.count
    }

    /// Rows the store reported actually inserted (saturating); lower than
    /// `seen` when deduplication ignored a redelivered record.
    pub closed spec fn inserted(&self) -> u64 {
        self.count_inserted
    }

    /// The operation log of the owned store.
    pub closed spec fn log(&self) -> Seq<StoreOp> {
        self.store.log()
    }

    /// The correlation cache contents.
    pub closed spec fn cache_view(&self) -> Map<u64, Seq<u8>> {
        self.cache@
    }

    /// The writer's counters are consistent: every inserted row came from a
    /// seen record. Construction establishes this and every method keeps it.
    pub open spec fn wf(&self) -> bool {
        self.inserted() <= self.seen()
    }

    /// Open the store at `filename` — applying the write-ahead journal
    /// pragma, the relaxed synchronous pragma, and the externally fixed
    /// `schema` text, which the log records — and take ownership of the
    /// hand-off queue's receiving half, the writer's only input.
    pub fn new(filename: String, schema: &str, rx: std::sync::mpsc::Receiver<String>) -> (r:
        Result<Database, WriteError>)
        ensures
            match r {
                Ok(d) => d.log() == setup_log(schema@) && d.cache_view() == Map::<
                    u64,
                    Seq<u8>,
                >::empty() && d.seen() == 0 && d.inserted() == 0 && d.wf(),
                Err(e) => e matches WriteError::Store(_),
            },
    {
        let store = match Store::open(filename.as_str(), schema) {
            Ok(s) => s,
            Err(e) => {
                return Err(e);
            },
        };
        Ok(Database { store, rx, cache: FlowPcapCache::new(), count: 0, count_inserted: 0 })
    }

    /// Run one writer cycle: block for the next record, pull every record
    /// already queued behind it, and commit the group as one transaction.
    /// Which records arrive, and how many, is the channel's business; but
    /// whatever arrived, a completed cycle extends the store log by one
    /// whole fatal-free batch wrapped in its transaction boundary, a cycle
    /// that found the channel closed changes nothing, and a failed cycle
    /// leaves at most one uncommitted transaction behind, which the store
    /// rolls back — never a partial commit.
    fn run_cycle(&mut self) -> (r: Result<bool, WriteError>)
        ensures
            final(self).seen() >= old(self).seen(),
            final(self).inserted() >= old(self).inserted(),
            old(self).wf() ==> final(self).wf(),
            r == Ok::<bool, WriteError>(false) ==> final(self).log() == old(self).log()
                && final(self).cache_view() == old(self).cache_view(),
            r == Ok::<bool, WriteError>(true) ==> exists|rs: Seq<Seq<u8>>|
                rs.len() >= 1 && #[trigger] batch_ok(rs)
                    && final(self).cache_view() == batch_cache(rs, old(self).cache_view())
                    && final(self).log() == old(self).log() + batch_section(
                    rs,
                    old(self).cache_view(),
                ),
            r is Err ==> exists|t: Seq<StoreOp>|
                #[trigger] uncommitted_tail(t) && final(self).log() == old(self).log() + t,
    {
        let first = match recv_record(&self.rx) {
            Some(rec) => rec,
            None => {
                return Ok(false);
            },
        };
        let mut records: Vec<String> = Vec::new();
        records.push(first);
        // The best-effort, don't-wait pull: everything already queued joins
        // this batch. The pull count is bounded by the address space, which
        // no queue reaches.
        let mut fuel: usize = usize::MAX;
        while fuel > 0
            invariant
                records@.len() >= 1,
            decreases fuel,
        {
            fuel -= 1;
            match try_recv_record(&self.rx) {
                Some(rec) => {
                    records.push(rec);
                },
                None => {
                    break;
                },
            };
        }
        self.count = sat_add_u64(self.count, records.len() as u64);
        let k = match write_batch(&mut self.store, &mut self.cache, &records) {
            Ok(k) => k,
            Err(e) => {
                proof {
                    let rs = recs_bytes(records@);
                    let m0 = old(self).cache_view();
                    let log0 = old(self).log();
                    match e {
                        WriteError::Event(_) => {
                            let i = choose|i: int|
                                0 <= i < rs.len() && #[trigger] batch_ok(rs.take(i))
                                    && self.store.log() == log0 + seq![StoreOp::Begin]
                                    + batch_stmts(rs.take(i), m0);
                            lemma_begin_stmts_tail(rs.take(i), m0);
                            let t = seq![StoreOp::Begin] + batch_stmts(rs.take(i), m0);
                            assert(self.log() == old(self).log() + t) by {
                                assert(log0 + seq![StoreOp::Begin] + batch_stmts(rs.take(i), m0)
                                    =~= log0 + t);
                            }
                        },
                        WriteError::Store(_) => {
                            if self.store.log() == log0 {
                                assert(uncommitted_tail(Seq::<StoreOp>::empty()));
                                assert(self.log() == old(self).log() + Seq::<StoreOp>::empty())
                                    by {
                                    assert(log0 + Seq::<StoreOp>::empty() =~= log0);
                                }
                            } else if exists|i: int|
                                0 <= i < rs.len() && #[trigger] batch_ok(rs.take(i + 1))
                                    && self.store.log() == log0 + seq![StoreOp::Begin]
                                    + batch_stmts(rs.take(i), m0) {
                                let i = choose|i: int|
                                    0 <= i < rs.len() && #[trigger] batch_ok(rs.take(i + 1))
                                        && self.store.log() == log0 + seq![StoreOp::Begin]
                                        + batch_stmts(rs.take(i), m0);
                                lemma_begin_stmts_tail(rs.take(i), m0);
                                let t = seq![StoreOp::Begin] + batch_stmts(rs.take(i), m0);
                                assert(self.log() == old(self).log() + t) by {
                                    assert(log0 + seq![StoreOp::Begin] + batch_stmts(
                                        rs.take(i),
                                        m0,
                                    ) =~= log0 + t);
                                }
                            } else {
                                lemma_begin_stmts_tail(rs, m0);
                                let t = seq![StoreOp::Begin] + batch_stmts(rs, m0);
                                assert(self.log() == old(self).log() + t) by {
                                    assert(log0 + seq![StoreOp::Begin] + batch_stmts(rs, m0)
                                        =~= log0 + t);
                                }
                            }
                        },
                    }
                }
                return Err(e);
            },
        };
        self.count_inserted = sat_add_u64(self.count_inserted, k);
        proof {
            let rs = recs_bytes(records@);
            assert(rs.len() >= 1);
            assert(self.log() == old(self).log() + batch_section(rs, old(self).cache_view()))
                by {
                assert(old(self).log() + batch_section(rs, old(self).cache_view()) =~= old(
                    self,
                ).log() + seq![StoreOp::Begin] + batch_stmts(rs, old(self).cache_view()) + seq![
                    StoreOp::Commit,
                ]);
            }
        }
        Ok(true)
    }

    /// Drain and commit batches until the channel closes (every producer
    /// gone) or a write fails. The cycle count is bounded by the width of
    /// the record counter, which no real stream exhausts. On clean
    /// termination, everything the loop added to the store log is whole,
    /// committed, fatal-free batch sections; on failure the extension is
    /// such sections plus at most one uncommitted transaction, which the
    /// store rolls back — records still queued are left unprocessed.
    fn batch_write_events(&mut self) -> (r: Result<(), WriteError>)
        ensures
            final(self).seen() >= old(self).seen(),
            final(self).inserted() >= old(self).inserted(),
            old(self).wf() ==> final(self).wf(),
            r is Ok ==> exists|bs: Seq<(Seq<Seq<u8>>, Map<u64, Seq<u8>>)>|
                #[trigger] sections_ok(bs) && final(self).log() == old(self).log() + sections_log(
                    bs,
                ),
            r is Err ==> exists|bs: Seq<(Seq<Seq<u8>>, Map<u64, Seq<u8>>)>, t: Seq<StoreOp>|
                #[trigger] sections_ok(bs) && #[trigger] uncommitted_tail(t) && final(self).log()
                    == old(self).log() + sections_log(bs) + t,
    {
        let ghost mut bs: Seq<(Seq<Seq<u8>>, Map<u64, Seq<u8>>)> = Seq::empty();
        proof {
            assert(self.log() =~= old(self).log() + sections_log(bs));
        }
        let mut fuel: u64 = u64::MAX;
        while fuel > 0
            invariant
                self.count >= old(self).count,
                self.count_inserted >= old(self).count_inserted,
                old(self).wf() ==> self.wf(),
                sections_ok(bs),
                self.log() == old(self).log() + sections_log(bs),
            decreases fuel,
        {
            fuel -= 1;
            let ghost pre_log = self.log();
            let ghost pre_cache = self.cache_view();
            match self.run_cycle() {
                Ok(true) => {
                    proof {
                        let rs = choose|rs: Seq<Seq<u8>>|
                            rs.len() >= 1 && #[trigger] batch_ok(rs) && self.cache_view()
                                == batch_cache(rs, pre_cache) && self.log() == pre_log
                                + batch_section(rs, pre_cache);
                        let bs0 = bs;
                        bs = bs.push((rs, pre_cache));
                        assert(bs.drop_last() =~= bs0);
                        assert forall|k: int|
                            0 <= k < bs.len() implies (#[trigger] bs[k]).0.len() >= 1 && batch_ok(
                            bs[k].0,
                        ) by {
                            if k < bs0.len() {
                                assert(bs[k] == bs0[k]);
                            } else {
                                assert(bs[k] == (rs, pre_cache));
                            }
                        }
                        assert(self.log() == old(self).log() + sections_log(bs)) by {
                            assert(old(self).log() + sections_log(bs) =~= (old(self).log()
                                + sections_log(bs0)) + batch_section(rs, pre_cache));
                        }
                    }
                },
                Ok(false) => {
                    return Ok(());
                },
                Err(e) => {
                    proof {
                        let t = choose|t: Seq<StoreOp>|
                            #[trigger] uncommitted_tail(t) && self.log() == pre_log + t;
                        assert(self.log() == old(self).log() + sections_log(bs) + t) by {
                            assert(old(self).log() + sections_log(bs) + t =~= pre_log + t);
                        }
                    }
                    return Err(e);
                },
            };
        }
        Ok(())
    }

    /// The writer's whole life: batch until the channel closes or a write
    /// fails. The error, if any, is handed back for the host to log; the
    /// cumulative counters stay readable through the getters. A run that
    /// ends cleanly has extended the store log by nothing but whole,
    /// committed, fatal-free batch sections — the transaction boundary and
    /// the batch boundary are one and the same; a run that fails leaves
    /// those sections plus at most one uncommitted transaction, which the
    /// store rolls back: no batch ever commits in part.
    pub fn run(&mut self) -> (r: Option<WriteError>)
        ensures
            final(self).seen() >= old(self).seen(),
            final(self).inserted() >= old(self).inserted(),
            old(self).wf() ==> final(self).wf(),
            r is None ==> exists|bs: Seq<(Seq<Seq<u8>>, Map<u64, Seq<u8>>)>|
                #[trigger] sections_ok(bs) && final(self).log() == old(self).log() + sections_log(
                    bs,
                ),
            r is Some ==> exists|bs: Seq<(Seq<Seq<u8>>, Map<u64, Seq<u8>>)>, t: Seq<StoreOp>|
                #[trigger] sections_ok(bs) && #[trigger] uncommitted_tail(t) && final(self).log()
                    == old(self).log() + sections_log(bs) + t,
    {
        let res = self.batch_write_events();
        match res {
            Ok(()) => None,
            Err(e) => Some(e),
        }
    }

    /// Total records seen.
    pub fn records_seen(&self) -> (r: u64)
        ensures
            r == self.seen(),
    {
        self.count
    }

    /// Total rows the store reported inserted.
    pub fn records_inserted(&self) -> (r: u64)
        ensures
            r == self.inserted(),
    {
        self.count_inserted
    }
}

} // verus!
