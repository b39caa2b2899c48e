use fdb_queue::codec::{
    decode_i64_be, decode_i64_le, decode_u32_be, encode_i32_be, encode_i64_be, encode_i64_le,
    encode_u32_be, encode_u32_le, truncate_i32,
};
use fdb_queue::keys::{
    build_active_crawl_key, build_active_crawl_prefix, build_active_key, build_active_prefix,
    build_claim_key_with_versionstamp, build_claims_prefix, build_counter_key,
    build_counter_prefix, build_crawl_index_key, build_crawl_index_prefix, build_queue_key,
    build_queue_prefix, build_ttl_index_key, build_ttl_index_prefix_until, end_key, next_key,
    CounterKind,
};

#[test]
fn i64_encodings_agree_with_std() {
    for n in [0i64, 1, -1, 255, 256, -256, i64::MAX, i64::MIN, 1_700_000_000_000] {
        assert_eq!(encode_i64_le(n), n.to_le_bytes());
        assert_eq!(encode_i64_be(n), n.to_be_bytes());
        assert_eq!(decode_i64_le(&n.to_le_bytes()), n);
        assert_eq!(decode_i64_be(&n.to_be_bytes()), n);
    }
}

#[test]
fn i32_and_u32_encodings_agree_with_std() {
    for n in [0i32, 1, -1, 65_536, i32::MAX, i32::MIN] {
        assert_eq!(encode_i32_be(n), n.to_be_bytes());
    }
    for n in [0u32, 1, 255, 256, 0x0102_0304, u32::MAX] {
        assert_eq!(encode_u32_be(n), n.to_be_bytes());
        assert_eq!(encode_u32_le(n), n.to_le_bytes());
        let mut buf = vec![9u8, 9];
        buf.extend_from_slice(&n.to_be_bytes());
        assert_eq!(decode_u32_be(&buf, 2), n);
    }
}

#[test]
fn exact_bytes_of_numbers() {
    assert_eq!(encode_i64_le(1), [1, 0, 0, 0, 0, 0, 0, 0]);
    assert_eq!(encode_i64_le(-1), [0xff; 8]);
    assert_eq!(encode_i64_be(258), [0, 0, 0, 0, 0, 0, 1, 2]);
    assert_eq!(encode_i32_be(-2), [0xff, 0xff, 0xff, 0xfe]);
}

#[test]
fn short_values_decode_as_zero_and_long_ones_by_their_first_eight_bytes() {
    assert_eq!(decode_i64_le(&[]), 0);
    assert_eq!(decode_i64_le(&[1, 2, 3, 4, 5, 6, 7]), 0);
    assert_eq!(decode_i64_be(&[0xff; 7]), 0);
    assert_eq!(decode_i64_le(&[5, 0, 0, 0, 0, 0, 0, 0, 0xaa, 0xbb]), 5);
    assert_eq!(decode_i64_be(&[0, 0, 0, 0, 0, 0, 0, 5, 0xaa]), 5);
}

#[test]
fn truncation_keeps_the_low_32_bits() {
    assert_eq!(truncate_i32(7), 7);
    assert_eq!(truncate_i32(-7), -7);
    assert_eq!(truncate_i32(i32::MAX as i64 + 1), i32::MIN);
    assert_eq!(truncate_i32(0x1_0000_0005), 5);
    assert_eq!(truncate_i32(i64::MIN), 0);
    assert_eq!(truncate_i32(-0x1_0000_0001), -1);
}

#[test]
fn queue_key_layout() {
    assert_eq!(
        build_queue_key("T1", 3, 258, "ab"),
        vec![
            0x01, 0, 0, 0, 2, b'T', b'1', 0, 0, 0, 3, 0, 0, 0, 0, 0, 0, 1, 2, 0, 0, 0, 2, b'a',
            b'b'
        ]
    );
    assert_eq!(build_queue_prefix("T1"), vec![0x01, 0, 0, 0, 2, b'T', b'1']);
    assert!(build_queue_key("T1", 3, 258, "ab").starts_with(&build_queue_prefix("T1")));
}

#[test]
fn index_and_active_key_layouts() {
    assert_eq!(
        build_crawl_index_key("c", "j"),
        vec![0x02, 0, 0, 0, 1, b'c', 0, 0, 0, 1, b'j']
    );
    assert_eq!(build_crawl_index_prefix("c"), vec![0x02, 0, 0, 0, 1, b'c']);
    assert_eq!(build_active_key("t", "j"), vec![0x04, 0, 0, 0, 1, b't', 0, 0, 0, 1, b'j']);
    assert_eq!(build_active_prefix("t"), vec![0x04, 0, 0, 0, 1, b't']);
    assert_eq!(build_active_crawl_key("c", "j"), vec![0x05, 0, 0, 0, 1, b'c', 0, 0, 0, 1, b'j']);
    assert_eq!(build_active_crawl_prefix("c"), vec![0x05, 0, 0, 0, 1, b'c']);
}

#[test]
fn counter_key_layouts() {
    assert_eq!(build_counter_prefix(CounterKind::TeamQueued), vec![0x03, 0x01]);
    assert_eq!(build_counter_prefix(CounterKind::CrawlQueued), vec![0x03, 0x02]);
    assert_eq!(build_counter_prefix(CounterKind::TeamActive), vec![0x03, 0x03]);
    assert_eq!(build_counter_prefix(CounterKind::CrawlActive), vec![0x03, 0x04]);
    assert_eq!(
        build_counter_key(CounterKind::CrawlActive, "id"),
        vec![0x03, 0x04, 0, 0, 0, 2, b'i', b'd']
    );
}

#[test]
fn expiry_key_layout() {
    assert_eq!(
        build_ttl_index_key(1, "t", "j"),
        vec![0x06, 0, 0, 0, 0, 0, 0, 0, 1, 0, 0, 0, 1, b't', 0, 0, 0, 1, b'j']
    );
    assert_eq!(build_ttl_index_prefix_until(256), vec![0x06, 0, 0, 0, 0, 0, 0, 1, 0]);
    assert!(build_ttl_index_key(255, "t", "j") < build_ttl_index_prefix_until(256));
    assert!(build_ttl_index_key(256, "t", "j") > build_ttl_index_prefix_until(256));
}

#[test]
fn claim_key_holds_placeholder_worker_and_offset() {
    let key = build_claim_key_with_versionstamp("job", "w1");
    let mut expected = vec![0x07, 0, 0, 0, 3, b'j', b'o', b'b'];
    expected.extend_from_slice(&[0xff; 10]);
    expected.extend_from_slice(&[0, 0, 0, 2, b'w', b'1']);
    expected.extend_from_slice(&[8, 0, 0, 0]);
    assert_eq!(key, expected);
    assert_eq!(build_claims_prefix("job"), vec![0x07, 0, 0, 0, 3, b'j', b'o', b'b']);
    assert_ne!(key, build_claim_key_with_versionstamp("job", "w2"));
}

#[test]
fn next_and_end_keys() {
    assert_eq!(next_key(&[1, 2]), vec![1, 2, 0]);
    assert_eq!(end_key(&[1, 2]), vec![1, 2, 0xff]);
    assert_eq!(next_key(&[]), vec![0]);
    assert!(vec![1u8, 2] < next_key(&[1, 2]));
    assert!(next_key(&[1, 2]) < vec![1u8, 2, 0, 0]);
}

#[test]
fn keys_sort_by_priority_then_creation_for_numbers_that_are_not_negative() {
    let a = build_queue_key("T", 1, 900, "z");
    let b = build_queue_key("T", 2, 100, "a");
    let c = build_queue_key("T", 2, 101, "a");
    let d = build_queue_key("T", 2, 101, "b");
    let e = build_queue_key("T", 256, 0, "a");
    assert!(a < b && b < c && c < d && d < e);
    assert!(build_queue_key("T", -1, 0, "a") > e);
}

#[test]
fn ids_are_utf8_in_keys() {
    assert_eq!(
        build_active_prefix("é"),
        vec![0x04, 0, 0, 0, 2, 0xc3, 0xa9]
    );
}

#[test]
fn milliseconds_are_cut_to_64_bits_with_a_sign() {
    use_millis(0, 0);
    use_millis(1_700_000_000_000, 1_700_000_000_000);
    use_millis(i64::MAX as u128, i64::MAX);
    use_millis(i64::MAX as u128 + 1, i64::MIN);
    use_millis(u64::MAX as u128, -1);
    use_millis(u64::MAX as u128 + 6, 5);
}

fn use_millis(millis: u128, expected: i64) {
    assert_eq!(fdb_queue::clock::millis_as_i64(millis), expected);
    assert_eq!(millis as i64, expected);
}
