use hickory_bunker::storage::{key_count_from_property, CacheEntry};
use hickory_bunker::text::parse_u64;

fn entry(data: &[u8], expires_at: u64, original_ttl: u32) -> CacheEntry {
    CacheEntry { data: data.to_vec(), expires_at, original_ttl }
}

#[test]
fn to_bytes_matches_bincode_layout() {
    let e = entry(&[0xaa, 0xbb, 0xcc], 0x0102_0304_0506_0708, 0x0a0b_0c0d);
    let bytes = e.to_bytes();
    let expected: Vec<u8> = vec![
        3, 0, 0, 0, 0, 0, 0, 0, 0xaa, 0xbb, 0xcc, 8, 7, 6, 5, 4, 3, 2, 1, 0x0d, 0x0c, 0x0b, 0x0a,
    ];
    assert_eq!(bytes, expected);
}

#[test]
fn to_bytes_equals_bincode_serialize_of_fields() {
    let e = entry(b"hello world", 1_700_000_000, 300);
    let reference = bincode::serialize(&(e.data.clone(), e.expires_at, e.original_ttl)).unwrap();
    assert_eq!(e.to_bytes(), reference);
}

#[test]
fn from_bytes_reads_back_to_bytes() {
    let e = entry(b"\x01\x02\x03\x04", 42, 7);
    let back = CacheEntry::from_bytes(&e.to_bytes()).unwrap();
    assert_eq!(back.data, e.data);
    assert_eq!(back.expires_at, 42);
    assert_eq!(back.original_ttl, 7);
}

#[test]
fn from_bytes_ignores_trailing_bytes() {
    let e = entry(b"ab", 9, 10);
    let mut bytes = e.to_bytes();
    bytes.extend_from_slice(&[0xff, 0xee]);
    let back = CacheEntry::from_bytes(&bytes).unwrap();
    assert_eq!(back.data, b"ab".to_vec());
    assert_eq!(back.expires_at, 9);
    assert_eq!(back.original_ttl, 10);
}

#[test]
fn from_bytes_rejects_truncated_input() {
    let e = entry(b"abcdef", 1, 2);
    let bytes = e.to_bytes();
    for cut in 0..bytes.len() {
        assert!(CacheEntry::from_bytes(&bytes[..cut]).is_none(), "cut at {}", cut);
    }
    assert!(CacheEntry::from_bytes(&[]).is_none());
}

#[test]
fn from_bytes_reads_bincode_output() {
    let reference = bincode::serialize(&(vec![5u8, 6, 7], 123u64, 456u32)).unwrap();
    let back = CacheEntry::from_bytes(&reference).unwrap();
    assert_eq!(back.data, vec![5, 6, 7]);
    assert_eq!(back.expires_at, 123);
    assert_eq!(back.original_ttl, 456);
}

#[test]
fn empty_data_round_trips() {
    let e = entry(&[], u64::MAX, u32::MAX);
    let back = CacheEntry::from_bytes(&e.to_bytes()).unwrap();
    assert!(back.data.is_empty());
    assert_eq!(back.expires_at, u64::MAX);
    assert_eq!(back.original_ttl, u32::MAX);
}

#[test]
fn key_count_reads_the_property() {
    assert_eq!(key_count_from_property(Some(Some("42".to_string()))), 42);
    assert_eq!(key_count_from_property(Some(Some("0".to_string()))), 0);
    assert_eq!(key_count_from_property(Some(Some("+17".to_string()))), 17);
}

#[test]
fn key_count_falls_back_to_zero() {
    assert_eq!(key_count_from_property(None), 0);
    assert_eq!(key_count_from_property(Some(None)), 0);
    assert_eq!(key_count_from_property(Some(Some("many".to_string()))), 0);
    assert_eq!(key_count_from_property(Some(Some("".to_string()))), 0);
    assert_eq!(key_count_from_property(Some(Some("18446744073709551616".to_string()))), 0);
}

#[test]
fn parse_u64_agrees_with_std() {
    let cases = [
        "", "0", "00", "+", "-", "-1", "+0", "+12", "12a", "a12", " 1", "1 ", "007",
        "18446744073709551615", "18446744073709551616", "99999999999999999999", "٣", "1_000",
        "4294967296", "123456789",
    ];
    for c in cases.iter() {
        assert_eq!(parse_u64(c), c.parse::<u64>().ok(), "case {:?}", c);
    }
}
