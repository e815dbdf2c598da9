//! The flow-to-capture-file correlation cache.
//!
//! The capture file name a "flow" record carries inline is unreliable in the
//! source system, so the pipeline remembers the most recently observed
//! `pcap_filename` of every other record, keyed by flow id, and prefers that
//! memory when the flow record itself is written. Entries are never evicted;
//! the cache lives as long as the writer that owns it.

use crate::scan::copy_range;
use vstd::prelude::*;

verus! {

broadcast use vstd::std_specs::hash::group_hash_axioms, vstd::std_specs::hash::axiom_u64_obeys_hash_table_key_model;

/// The view of an optional extracted value.
pub open spec fn opt_bytes(o: Option<Vec<u8>>) -> Option<Seq<u8>> {
    match o {
        Some(v) => Some(v@),
        None => None,
    }
}

/// What a "flow" record's capture file name resolves to: the cached entry
/// for its flow id if one exists, else the record's own inline value, else
/// the empty string.
pub open spec fn resolve_spec(m: Map<u64, Seq<u8>>, flow_id: u64, inline: Option<Seq<u8>>) -> Seq<
    u8,
> {
    if m.contains_key(flow_id) {
        m[flow_id]
    } else {
        match inline {
            Some(p) => p,
            None => Seq::empty(),
        }
    }
}

/// Map from flow id to the most recently observed capture file name.
pub struct FlowPcapCache {
    map: vstd::hash_map::HashMapWithView<u64, Vec<u8>>,
}

impl View for FlowPcapCache {
    type V = Map<u64, Seq<u8>>;

    closed spec fn view(&self) -> Map<u64, Seq<u8>> {
        self.map@.map_values(|v: Vec<u8>| v@)
    }
}

impl FlowPcapCache {
    /// An empty cache.
    pub fn new() -> (c: FlowPcapCache)
        ensures
            c@ == Map::<u64, Seq<u8>>::empty(),
    {
        let c = FlowPcapCache { map: vstd::hash_map::HashMapWithView::new() };
        proof {
            assert(c@ =~= Map::<u64, Seq<u8>>::empty());
        }
        c
    }

    /// Record (insert or overwrite) the capture file name observed for a
    /// flow id; the latest observation wins.
    pub fn record(&mut self, flow_id: u64, filename: Vec<u8>)
        ensures
            final(self)@ == old(self)@.insert(flow_id, filename@),
    {
        let ghost f = filename@;
        self.map.insert(flow_id, filename);
        proof {
            assert(self@ =~= old(self)@.insert(flow_id, f));
        }
    }

    /// Resolve the capture file name for a "flow" record: the cached entry
    /// wins; otherwise the record's inline value; otherwise empty.
    pub fn resolve(&self, flow_id: u64, inline: Option<Vec<u8>>) -> (r: Vec<u8>)
        ensures
            r@ == resolve_spec(self@, flow_id, opt_bytes(inline)),
    {
        proof {
            assert(self@.contains_key(flow_id) == self.map@.contains_key(flow_id));
        }
        match self.map.get(&flow_id) {
            Some(v) => {
                let n = v.len();
                copy_range(v.as_slice(), 0, n)
            },
            None => match inline {
                Some(p) => p,
                None => Vec::new(),
            },
        }
    }
}

/// A correlation recorded for a flow id wins over whatever inline value a
/// later "flow" record with that id carries.
pub proof fn lemma_recorded_pcap_wins(
    m: Map<u64, Seq<u8>>,
    flow_id: u64,
    filename: Seq<u8>,
    inline: Option<Seq<u8>>,
)
    ensures
        resolve_spec(m.insert(flow_id, filename), flow_id, inline) == filename,
{
}

/// With no correlation recorded for a flow id, resolution falls back to the
/// record's own inline value, or to the empty string if it has none.
pub proof fn lemma_resolve_fallback(m: Map<u64, Seq<u8>>, flow_id: u64, inline: Option<Seq<u8>>)
    requires
        !m.contains_key(flow_id),
    ensures
        resolve_spec(m, flow_id, inline) == match inline {
            Some(p) => p,
            None => Seq::<u8>::empty(),
        },
{
}

} // verus!
