use hickory_bunker::names::DomainName;
use hickory_bunker::resolver::{CachedLookup, CachedResolver, UpstreamStep};
use hickory_bunker::storage::CacheEntry;
use hickory_bunker::wire::{a_response_bytes, answer_ttls};

fn empty_message() -> Vec<u8> {
    hickory_proto::op::Message::new().to_vec().unwrap()
}

fn stored(data: &[u8], expires_at: u64, original_ttl: u32) -> Option<Vec<u8>> {
    Some(CacheEntry { data: data.to_vec(), expires_at, original_ttl }.to_bytes())
}

#[test]
fn answer_ttls_reads_records() {
    let wire = a_response_bytes("a.example.", 1234, [1, 2, 3, 4], true).unwrap();
    assert_eq!(answer_ttls(&wire), Some(vec![1234]));
    assert_eq!(answer_ttls(&empty_message()), Some(vec![]));
    assert_eq!(answer_ttls(&[1, 2, 3]), None);
}

#[test]
fn fresh_entry_is_served_without_refresh() {
    let r = CachedResolver::new();
    match r.lookup_cached(stored(b"msg", 1000 + 600, 900), 1000) {
        CachedLookup::Serve { data, refresh_ttl } => {
            assert_eq!(data, b"msg".to_vec());
            assert_eq!(refresh_ttl, None);
        }
        _ => panic!("expected a cached answer"),
    }
}

#[test]
fn entry_near_expiry_is_refreshed() {
    let r = CachedResolver::new();
    // 250 seconds left, a third of the TTL is 300: refresh.
    match r.lookup_cached(stored(b"msg", 1250, 900), 1000) {
        CachedLookup::Serve { refresh_ttl, .. } => assert_eq!(refresh_ttl, Some(900)),
        _ => panic!("expected a cached answer"),
    }
    // 20 seconds left, a third of the TTL is 10: the 30 second window applies.
    match r.lookup_cached(stored(b"msg", 1020, 30), 1000) {
        CachedLookup::Serve { refresh_ttl, .. } => assert_eq!(refresh_ttl, Some(30)),
        _ => panic!("expected a cached answer"),
    }
    // 40 seconds left, window 30: no refresh.
    match r.lookup_cached(stored(b"msg", 1040, 30), 1000) {
        CachedLookup::Serve { refresh_ttl, .. } => assert_eq!(refresh_ttl, None),
        _ => panic!("expected a cached answer"),
    }
}

#[test]
fn expired_entry_is_served_and_refreshed_online_only() {
    let mut r = CachedResolver::new();
    match r.lookup_cached(stored(b"old", 500, 60), 1000) {
        CachedLookup::Serve { data, refresh_ttl } => {
            assert_eq!(data, b"old".to_vec());
            assert_eq!(refresh_ttl, Some(60));
        }
        _ => panic!("expected a cached answer"),
    }
    r.set_offline(true);
    assert!(r.offline_mode);
    match r.lookup_cached(stored(b"old", 500, 60), 1000) {
        CachedLookup::Serve { refresh_ttl, .. } => assert_eq!(refresh_ttl, None),
        _ => panic!("expected a cached answer"),
    }
}

#[test]
fn miss_resolves_online_and_gives_up_offline() {
    let mut r = CachedResolver::new();
    assert!(matches!(r.lookup_cached(None, 1000), CachedLookup::Resolve));
    assert!(matches!(r.lookup_cached(Some(vec![1, 2]), 1000), CachedLookup::Resolve));
    r.set_offline(true);
    assert!(matches!(r.lookup_cached(None, 1000), CachedLookup::Miss));
}

#[test]
fn resolved_entry_keeps_first_answer_ttl() {
    let wire = a_response_bytes("a.example.", 77, [9, 9, 9, 9], false).unwrap();
    let e = CachedResolver::resolved_entry(wire.clone(), 1000).unwrap();
    assert_eq!(e.data, wire);
    assert_eq!(e.original_ttl, 77);
    assert_eq!(e.expires_at, 1077);
}

#[test]
fn resolved_entry_defaults_to_300() {
    let e = CachedResolver::resolved_entry(empty_message(), 1000).unwrap();
    assert_eq!(e.original_ttl, 300);
    assert_eq!(e.expires_at, 1300);
    let g = CachedResolver::resolved_entry(vec![0xde, 0xad], 5).unwrap();
    assert_eq!(g.original_ttl, 300);
    assert_eq!(g.expires_at, 305);
    assert!(CachedResolver::resolved_entry(vec![0xde, 0xad], u64::MAX - 10).is_none());
}

#[test]
fn refreshed_and_metadata_entries() {
    let e = CachedResolver::refreshed_entry(vec![1], 2000, 45).unwrap();
    assert_eq!((e.expires_at, e.original_ttl), (2045, 45));
    let m = CachedResolver::zone_metadata_entry(vec![2], 2000).unwrap();
    assert_eq!((m.expires_at, m.original_ttl), (2000 + 86400, 3600));
    assert!(CachedResolver::zone_metadata_entry(vec![2], u64::MAX).is_none());
    assert!(CachedResolver::refreshed_entry(vec![2], u64::MAX, 1).is_none());
}

#[test]
fn lookup_key_is_name_and_type() {
    let n = DomainName { labels: vec!["example".to_string(), "org".to_string()], fqdn: true };
    assert_eq!(CachedResolver::lookup_key(&n, 28), b"example.org.:AAAA".to_vec());
}

#[test]
fn resolved_answer_is_served_back_from_the_cache() {
    let wire = a_response_bytes("b.example.", 600, [1, 1, 1, 1], false).unwrap();
    let entry = CachedResolver::resolved_entry(wire.clone(), 1000).unwrap();
    let r = CachedResolver::new();
    match r.lookup_cached(Some(entry.to_bytes()), 1000) {
        CachedLookup::Serve { data, refresh_ttl } => {
            assert_eq!(data, wire);
            assert_eq!(refresh_ttl, None);
        }
        _ => panic!("expected the stored answer"),
    }
    let short = a_response_bytes("c.example.", 20, [1, 1, 1, 1], false).unwrap();
    let e2 = CachedResolver::resolved_entry(short, 1000).unwrap();
    match r.lookup_cached(Some(e2.to_bytes()), 1000) {
        CachedLookup::Serve { refresh_ttl, .. } => assert_eq!(refresh_ttl, Some(20)),
        _ => panic!("expected the stored answer"),
    }
}

#[test]
fn after_upstream_stores_and_fetches_zone_metadata() {
    let wire = a_response_bytes("d.example.", 120, [4, 3, 2, 1], false).unwrap();
    match CachedResolver::after_upstream(Some(wire.clone()), 1000) {
        UpstreamStep::Store { entry, background } => {
            assert_eq!(entry.data, wire);
            assert_eq!((entry.expires_at, entry.original_ttl), (1120, 120));
            assert_eq!(background, vec![6, 2]);
        }
        _ => panic!("expected a store step"),
    }
    assert!(matches!(CachedResolver::after_upstream(None, 1000), UpstreamStep::NotFound));
    assert!(matches!(CachedResolver::after_upstream(Some(vec![0]), u64::MAX), UpstreamStep::ClockOverflow));
}
