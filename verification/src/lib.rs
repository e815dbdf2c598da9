//! Ingestion and batched persistence pipeline for EVE security-event records.
//!
//! The crate recognizes a small fixed set of fields in a raw textual record by
//! byte-pattern search, repairs the `pcap_filename` of "flow" records through a
//! correlation cache keyed by flow id, and drains a bounded hand-off queue into
//! an embedded SQLite store, committing each drained batch as one transaction.

pub mod cache;
pub mod channel;
pub mod event;
pub mod ip;
pub mod model;
pub mod scan;
pub mod store;
pub mod timestamp;
pub mod writer;

use vstd::prelude::*;

verus! {

/// The ASCII double quote that delimits string values in a record.
pub const QUOTE: u8 = 34;

/// The ASCII dot that separates the octets of an IPv4 address.
pub const DOT: u8 = 46;

/// Saturating addition on `u64`, used for the writer's running counters,
/// which must never interrupt the pipeline by overflowing.
pub fn sat_add_u64(a: u64, b: u64) -> (r: u64)
    ensures
        r == if a + b <= u64::MAX {
            a + b
        } else {
            u64::MAX as int
        },
{
    if a <= u64::MAX - b {
        a + b
    } else {
        u64::MAX
    }
}

} // verus!
