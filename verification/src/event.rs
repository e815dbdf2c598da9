//! Field recognition for one event record.
//!
//! A record is loggable only if it carries an `event_type` field. Depending on
//! that type, a small fixed set of further fields is read: the numeric flow
//! id, the source and destination addresses, the optional capture file name,
//! and the record's timestamp. Every pattern follows the double-quoted-key
//! convention of the event encoding.

use crate::scan::{digits_end, first_num_match, first_str_match, is_digit, num_field, str_field};
use vstd::prelude::*;

verus! {

/// The key pattern `"event_type":"`.
pub open spec fn event_type_pat() -> Seq<u8> {
    seq![34u8, 101u8, 118u8, 101u8, 110u8, 116u8, 95u8, 116u8, 121u8, 112u8, 101u8, 34u8, 58u8, 34u8]
}

/// The key pattern `"src_ip":"`.
pub open spec fn src_ip_pat() -> Seq<u8> {
    seq![34u8, 115u8, 114u8, 99u8, 95u8, 105u8, 112u8, 34u8, 58u8, 34u8]
}

/// The key pattern `"dest_ip":"`.
pub open spec fn dest_ip_pat() -> Seq<u8> {
    seq![34u8, 100u8, 101u8, 115u8, 116u8, 95u8, 105u8, 112u8, 34u8, 58u8, 34u8]
}

/// The key pattern `"pcap_filename":"`.
pub open spec fn pcap_pat() -> Seq<u8> {
    seq![34u8, 112u8, 99u8, 97u8, 112u8, 95u8, 102u8, 105u8, 108u8, 101u8, 110u8, 97u8, 109u8, 101u8, 34u8, 58u8, 34u8]
}

/// The key pattern `"timestamp":"`.
pub open spec fn timestamp_pat() -> Seq<u8> {
    seq![34u8, 116u8, 105u8, 109u8, 101u8, 115u8, 116u8, 97u8, 109u8, 112u8, 34u8, 58u8, 34u8]
}

/// The key pattern `"flow_id":`, followed by a bare number.
pub open spec fn flow_id_pat() -> Seq<u8> {
    seq![34u8, 102u8, 108u8, 111u8, 119u8, 95u8, 105u8, 100u8, 34u8, 58u8]
}

/// The event type value `flow`.
pub open spec fn flow_label() -> Seq<u8> {
    seq![102u8, 108u8, 111u8, 119u8]
}

/// The event type value `alert`.
pub open spec fn alert_label() -> Seq<u8> {
    seq![97u8, 108u8, 101u8, 114u8, 116u8]
}

/// The event type value `anomaly`.
pub open spec fn anomaly_label() -> Seq<u8> {
    seq![97u8, 110u8, 111u8, 109u8, 97u8, 108u8, 121u8]
}

/// The event type value `fileinfo`.
pub open spec fn fileinfo_label() -> Seq<u8> {
    seq![102u8, 105u8, 108u8, 101u8, 105u8, 110u8, 102u8, 111u8]
}

/// Executable copy of `event_type_pat`.
pub fn event_type_pat_vec() -> (v: Vec<u8>)
    ensures
        v@ == event_type_pat(),
{
    let v: Vec<u8> = vec![34u8, 101u8, 118u8, 101u8, 110u8, 116u8, 95u8, 116u8, 121u8, 112u8, 101u8, 34u8, 58u8, 34u8];
    assert(v@ =~= event_type_pat());
    v
}

/// Executable copy of `src_ip_pat`.
pub fn src_ip_pat_vec() -> (v: Vec<u8>)
    ensures
        v@ == src_ip_pat(),
{
    let v: Vec<u8> = vec![34u8, 115u8, 114u8, 99u8, 95u8, 105u8, 112u8, 34u8, 58u8, 34u8];
    assert(v@ =~= src_ip_pat());
    v
}

/// Executable copy of `dest_ip_pat`.
pub fn dest_ip_pat_vec() -> (v: Vec<u8>)
    ensures
        v@ == dest_ip_pat(),
{
    let v: Vec<u8> = vec![34u8, 100u8, 101u8, 115u8, 116u8, 95u8, 105u8, 112u8, 34u8, 58u8, 34u8];
    assert(v@ =~= dest_ip_pat());
    v
}

/// Executable copy of `pcap_pat`.
pub fn pcap_pat_vec() -> (v: Vec<u8>)
    ensures
        v@ == pcap_pat(),
{
    let v: Vec<u8> = vec![34u8, 112u8, 99u8, 97u8, 112u8, 95u8, 102u8, 105u8, 108u8, 101u8, 110u8, 97u8, 109u8, 101u8, 34u8, 58u8, 34u8];
    assert(v@ =~= pcap_pat());
    v
}

/// Executable copy of `timestamp_pat`.
pub fn timestamp_pat_vec() -> (v: Vec<u8>)
    ensures
        v@ == timestamp_pat(),
{
    let v: Vec<u8> = vec![34u8, 116u8, 105u8, 109u8, 101u8, 115u8, 116u8, 97u8, 109u8, 112u8, 34u8, 58u8, 34u8];
    assert(v@ =~= timestamp_pat());
    v
}

/// Executable copy of `flow_id_pat`.
pub fn flow_id_pat_vec() -> (v: Vec<u8>)
    ensures
        v@ == flow_id_pat(),
{
    let v: Vec<u8> = vec![34u8, 102u8, 108u8, 111u8, 119u8, 95u8, 105u8, 100u8, 34u8, 58u8];
    assert(v@ =~= flow_id_pat());
    v
}

/// Executable copy of `flow_label`.
pub fn flow_label_vec() -> (v: Vec<u8>)
    ensures
        v@ == flow_label(),
{
    let v: Vec<u8> = vec![102u8, 108u8, 111u8, 119u8];
    assert(v@ =~= flow_label());
    v
}

/// Executable copy of `alert_label`.
pub fn alert_label_vec() -> (v: Vec<u8>)
    ensures
        v@ == alert_label(),
{
    let v: Vec<u8> = vec![97u8, 108u8, 101u8, 114u8, 116u8];
    assert(v@ =~= alert_label());
    v
}

/// Executable copy of `anomaly_label`.
pub fn anomaly_label_vec() -> (v: Vec<u8>)
    ensures
        v@ == anomaly_label(),
{
    let v: Vec<u8> = vec![97u8, 110u8, 111u8, 109u8, 97u8, 108u8, 121u8];
    assert(v@ =~= anomaly_label());
    v
}

/// Executable copy of `fileinfo_label`.
pub fn fileinfo_label_vec() -> (v: Vec<u8>)
    ensures
        v@ == fileinfo_label(),
{
    let v: Vec<u8> = vec![102u8, 105u8, 108u8, 101u8, 105u8, 110u8, 102u8, 111u8];
    assert(v@ =~= fileinfo_label());
    v
}

/// The numeric value of a run of decimal digits, most significant first.
pub open spec fn digits_val(s: Seq<u8>) -> int
    decreases s.len(),
{
    if s.len() == 0 {
        0
    } else {
        digits_val(s.drop_last()) * 10 + (s.last() - 48)
    }
}

/// The value of a digit run is never negative.
pub proof fn lemma_digits_val_nonneg(s: Seq<u8>)
    requires
        forall|i: int| 0 <= i < s.len() ==> is_digit(s[i]),
    ensures
        digits_val(s) >= 0,
    decreases s.len(),
{
    if s.len() > 0 {
        lemma_digits_val_nonneg(s.drop_last());
    }
}

/// Extending a digit run to the right never shrinks its value.
pub proof fn lemma_digits_val_prefix_le(s: Seq<u8>, i: int, j: int)
    requires
        forall|m: int| 0 <= m < s.len() ==> is_digit(s[m]),
        0 <= i <= j <= s.len(),
    ensures
        digits_val(s.take(i)) <= digits_val(s.take(j)),
    decreases j - i,
{
    if i < j {
        lemma_digits_val_prefix_le(s, i, j - 1);
        lemma_digits_val_nonneg(s.take(j - 1));
        assert(s.take(j).drop_last() =~= s.take(j - 1));
        assert(digits_val(s.take(j)) == digits_val(s.take(j - 1)) * 10 + (s[j - 1] - 48));
    }
}

/// The `u64` denoted by a digit run, or nothing if it exceeds `u64::MAX`
/// (the upstream contract fixes flow ids at 64 bits unsigned).
pub fn parse_u64_digits(d: &[u8]) -> (r: Option<u64>)
    requires
        forall|i: int| 0 <= i < d@.len() ==> is_digit(d@[i]),
    ensures
        match r {
            Some(v) => v as int == digits_val(d@),
            None => digits_val(d@) > u64::MAX,
        },
{
    let n = d.len();
    let mut acc: u64 = 0;
    let mut i: usize = 0;
    while i < n
        invariant
            0 <= i <= n,
            n == d@.len(),
            forall|m: int| 0 <= m < d@.len() ==> is_digit(d@[m]),
            acc as int == digits_val(d@.take(i as int)),
        decreases n - i,
    {
        let dig = (d[i] - 48) as u64;
        proof {
            assert(d@.take(i + 1).drop_last() =~= d@.take(i as int));
            assert(d@.take(i + 1).last() == d@[i as int]);
        }
        if acc <= (u64::MAX - dig) / 10 {
            acc = acc * 10 + dig;
        } else {
            proof {
                let m = (u64::MAX - dig) as int;
                assert(m == 10 * (m / 10) + m % 10);
                assert(acc as int * 10 + dig > u64::MAX);
                lemma_digits_val_prefix_le(d@, i + 1, n as int);
                assert(d@.take(n as int) =~= d@);
            }
            return None;
        }
        i += 1;
    }
    proof {
        assert(d@.take(n as int) =~= d@);
    }
    Some(acc)
}

/// The `event_type` value of a record, if it carries one.
pub open spec fn event_type_of(b: Seq<u8>) -> Option<Seq<u8>> {
    str_field(b, event_type_pat())
}

/// The `src_ip` value of a record, if it carries one.
pub open spec fn src_ip_of(b: Seq<u8>) -> Option<Seq<u8>> {
    str_field(b, src_ip_pat())
}

/// The `dest_ip` value of a record, if it carries one.
pub open spec fn dest_ip_of(b: Seq<u8>) -> Option<Seq<u8>> {
    str_field(b, dest_ip_pat())
}

/// The `pcap_filename` value of a record, if it carries one.
pub open spec fn pcap_of(b: Seq<u8>) -> Option<Seq<u8>> {
    str_field(b, pcap_pat())
}

/// The `timestamp` value of a record, if it carries one.
pub open spec fn timestamp_of(b: Seq<u8>) -> Option<Seq<u8>> {
    str_field(b, timestamp_pat())
}

/// The digit run of the record's `flow_id` field, if it carries one.
pub open spec fn flow_id_digits_of(b: Seq<u8>) -> Option<Seq<u8>> {
    num_field(b, flow_id_pat())
}

/// The record is a "flow" event.
pub open spec fn is_flow(b: Seq<u8>) -> bool {
    event_type_of(b) == Some(flow_label())
}

/// How recognizing a record's required fields can fail. Such a failure is an
/// upstream contract violation: the record matched a dispatch path but lacks
/// (or malforms) a field that path requires, and the pipeline treats it as
/// fatal rather than silently skipping the record.
#[derive(Clone, Copy, Debug, PartialEq, Eq, Structural)]
pub enum EventError {
    /// A non-"flow" record, or a "flow" record, without a usable `flow_id`.
    MissingFlowId,
    /// A `flow_id` whose digits exceed 64 unsigned bits.
    FlowIdTooLarge,
    /// A "flow" record without a `src_ip` field.
    MissingSrcIp,
    /// A "flow" record without a `dest_ip` field.
    MissingDestIp,
    /// A "flow" record whose `src_ip` is neither IPv4 nor IPv6 text.
    InvalidSrcIp,
    /// A "flow" record whose `dest_ip` is neither IPv4 nor IPv6 text.
    InvalidDestIp,
}

} // verus!
