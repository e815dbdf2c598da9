//! Unit tests for field recognition, address normalization, timestamp
//! encoding, and the correlation cache.

use suricata_eve_sqlite_output::cache::FlowPcapCache;
use suricata_eve_sqlite_output::event::{
    dest_ip_pat_vec, event_type_pat_vec, flow_id_pat_vec, parse_u64_digits, pcap_pat_vec,
    src_ip_pat_vec,
};
use suricata_eve_sqlite_output::ip::format_ip_addr;
use suricata_eve_sqlite_output::scan::{bytes_eq, find_num_field, find_str_field};
use suricata_eve_sqlite_output::timestamp::encode_timestamp;

const RECORD: &str = r#"{"timestamp":"2024-01-01T00:00:00.123456+0000","flow_id":42,"event_type":"alert","src_ip":"10.0.0.1","dest_ip":"10.0.0.2","pcap_filename":"/tmp/log.1.pcap"}"#;

#[test]
fn extracts_event_type() {
    let v = find_str_field(RECORD.as_bytes(), event_type_pat_vec().as_slice()).unwrap();
    assert_eq!(v, b"alert".to_vec());
}

#[test]
fn extracts_flow_id_digits() {
    let v = find_num_field(RECORD.as_bytes(), flow_id_pat_vec().as_slice()).unwrap();
    assert_eq!(v, b"42".to_vec());
    assert_eq!(parse_u64_digits(&v), Some(42));
}

#[test]
fn extracts_addresses_and_pcap() {
    let src = find_str_field(RECORD.as_bytes(), src_ip_pat_vec().as_slice()).unwrap();
    let dest = find_str_field(RECORD.as_bytes(), dest_ip_pat_vec().as_slice()).unwrap();
    let pcap = find_str_field(RECORD.as_bytes(), pcap_pat_vec().as_slice()).unwrap();
    assert_eq!(src, b"10.0.0.1".to_vec());
    assert_eq!(dest, b"10.0.0.2".to_vec());
    assert_eq!(pcap, b"/tmp/log.1.pcap".to_vec());
}

#[test]
fn missing_field_is_none() {
    let buf = br#"{"type":"stats","uptime":5}"#;
    assert!(find_str_field(buf, event_type_pat_vec().as_slice()).is_none());
    assert!(find_num_field(buf, flow_id_pat_vec().as_slice()).is_none());
}

#[test]
fn empty_value_is_skipped_for_a_later_occurrence() {
    // The capture needs at least one byte, so an empty value does not
    // match; a later occurrence of the key does.
    let buf = br#"{"pcap_filename":"","nested":{"pcap_filename":"real.pcap"}}"#;
    let v = find_str_field(buf, pcap_pat_vec().as_slice()).unwrap();
    assert_eq!(v, b"real.pcap".to_vec());
    let none = br#"{"pcap_filename":""}"#;
    assert!(find_str_field(none, pcap_pat_vec().as_slice()).is_none());
}

#[test]
fn the_leading_quote_anchors_the_key() {
    // A key that merely ends in the searched name does not match: the
    // pattern starts at the key's own opening quote.
    let buf = br#"{"xflow_id":9}"#;
    assert!(find_num_field(buf, flow_id_pat_vec().as_slice()).is_none());
    let buf2 = br#"{"xflow_id":9,"flow_id":10}"#;
    let v = find_num_field(buf2, flow_id_pat_vec().as_slice()).unwrap();
    assert_eq!(v, b"10".to_vec());
}

#[test]
fn unterminated_value_is_no_match() {
    let buf = br#"{"pcap_filename":"broken"#;
    assert!(find_str_field(buf, pcap_pat_vec().as_slice()).is_none());
}

#[test]
fn numeric_capture_is_the_maximal_digit_run() {
    let buf = br#"{"flow_id":123456789012,"x":1}"#;
    let v = find_num_field(buf, flow_id_pat_vec().as_slice()).unwrap();
    assert_eq!(v, b"123456789012".to_vec());
}

#[test]
fn flow_id_at_the_64_bit_bound() {
    assert_eq!(parse_u64_digits(b"18446744073709551615"), Some(u64::MAX));
    assert_eq!(parse_u64_digits(b"18446744073709551616"), None);
    assert_eq!(parse_u64_digits(b""), Some(0));
}

#[test]
fn bytes_eq_compares_contents() {
    assert!(bytes_eq(b"flow", b"flow"));
    assert!(!bytes_eq(b"flow", b"flows"));
    assert!(!bytes_eq(b"flow", b"floW"));
}

#[test]
fn ipv4_is_kept_as_is() {
    assert_eq!(format_ip_addr(b"1.2.3.4"), Some(b"1.2.3.4".to_vec()));
    assert_eq!(format_ip_addr(b"255.255.255.255"), Some(b"255.255.255.255".to_vec()));
    assert_eq!(format_ip_addr(b"0.0.0.0"), Some(b"0.0.0.0".to_vec()));
}

#[test]
fn ipv6_is_bracketed() {
    assert_eq!(format_ip_addr(b"2001:db8::1"), Some(b"[2001:db8::1]".to_vec()));
    assert_eq!(format_ip_addr(b"::1"), Some(b"[::1]".to_vec()));
    assert_eq!(format_ip_addr(b"::"), Some(b"[::]".to_vec()));
    assert_eq!(format_ip_addr(b"::ffff:1.2.3.4"), Some(b"[::ffff:1.2.3.4]".to_vec()));
    assert_eq!(
        format_ip_addr(b"fe80:0:0:0:1:2:3:4"),
        Some(b"[fe80:0:0:0:1:2:3:4]".to_vec())
    );
}

#[test]
fn invalid_address_text_is_rejected() {
    assert_eq!(format_ip_addr(b"999.1.1.1"), None);
    assert_eq!(format_ip_addr(b"01.2.3.4"), None);
    assert_eq!(format_ip_addr(b"1.2.3"), None);
    assert_eq!(format_ip_addr(b"1.2.3.4.5"), None);
    assert_eq!(format_ip_addr(b"localhost"), None);
    assert_eq!(format_ip_addr(b""), None);
}

#[test]
fn colon_junk_is_not_an_address() {
    assert_eq!(format_ip_addr(b":"), None);
    assert_eq!(format_ip_addr(b":::"), None);
    assert_eq!(format_ip_addr(b":1"), None);
    assert_eq!(format_ip_addr(b"1:"), None);
    assert_eq!(format_ip_addr(b"1::2::3"), None);
    assert_eq!(format_ip_addr(b"12345::"), None);
    assert_eq!(format_ip_addr(b"1:2:3:4:5:6:7:8:9"), None);
    assert_eq!(format_ip_addr(b"1:2:3:4:5:6:7:8"), Some(b"[1:2:3:4:5:6:7:8]".to_vec()));
}

#[test]
fn timestamp_encoding_matches_the_store_contract() {
    // epoch("2024-01-01T00:00:00") * 1_000_000 + 123456
    assert_eq!(
        encode_timestamp(b"2024-01-01T00:00:00.123456+0000"),
        Some(1704067200123456)
    );
    assert_eq!(encode_timestamp(b"1970-01-01T00:00:00.000000+0000"), Some(0));
    assert_eq!(
        encode_timestamp(b"1969-12-31T23:59:59.000000+0000"),
        Some(-1000000)
    );
    assert_eq!(
        encode_timestamp(b"2000-02-29T12:30:45.999999+0000"),
        Some(951827445999999)
    );
}

#[test]
fn malformed_timestamps_are_not_encoded() {
    assert_eq!(encode_timestamp(b"2023-02-29T00:00:00.000000+0000"), None);
    assert_eq!(encode_timestamp(b"2024-13-01T00:00:00.000000+0000"), None);
    assert_eq!(encode_timestamp(b"2024-01-01T24:00:00.000000+0000"), None);
    assert_eq!(encode_timestamp(b"2024-01-01 00:00:00.000000+0000"), None);
    assert_eq!(encode_timestamp(b"2024-01-01T00:00:00"), None);
    assert_eq!(encode_timestamp(b""), None);
}

#[test]
fn cache_prefers_recorded_over_inline() {
    let mut cache = FlowPcapCache::new();
    cache.record(5, b"first.pcap".to_vec());
    cache.record(5, b"second.pcap".to_vec());
    // last write wins, and the cached value beats the inline one
    assert_eq!(cache.resolve(5, Some(b"inline.pcap".to_vec())), b"second.pcap".to_vec());
    // unseen flow id falls back to the inline value, then to empty
    assert_eq!(cache.resolve(6, Some(b"inline.pcap".to_vec())), b"inline.pcap".to_vec());
    assert_eq!(cache.resolve(7, None), Vec::<u8>::new());
}
