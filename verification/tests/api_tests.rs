use hickory_bunker::api::{add_record, freeze_zone, set_mode, stats, AddRecordError, ApiState, ZoneSet};
use hickory_bunker::handler::{Answer, RequestPlan, Step};
use hickory_bunker::names::parse_name;
use hickory_bunker::storage::CacheEntry;
use hickory_bunker::wire::answer_ttls;

#[test]
fn mode_switches() {
    let mut s = ApiState::new();
    assert!(!s.resolver.offline_mode);
    assert!(set_mode(&mut s, true));
    assert!(s.resolver.offline_mode);
    assert!(!set_mode(&mut s, false));
    assert!(!s.resolver.offline_mode);
}

#[test]
fn zones_freeze_once() {
    let mut s = ApiState::new();
    assert_eq!(freeze_zone(&mut s, "example.com.".to_string()), "example.com.");
    freeze_zone(&mut s, "example.com.".to_string());
    freeze_zone(&mut s, "lan.".to_string());
    assert_eq!(freeze_zone(&mut s, String::new()), "");
    let st = stats(&s);
    assert_eq!(st.rocksdb_zones, vec!["example.com.".to_string(), "lan.".to_string()]);
    assert!(!st.offline_mode);
}

#[test]
fn zone_set_membership() {
    let mut z = ZoneSet::new();
    assert!(!z.contains(&"a".to_string()));
    z.insert("a".to_string());
    z.insert("a".to_string());
    assert!(z.contains(&"a".to_string()));
    assert_eq!(z.to_vec().len(), 1);
}

#[test]
fn add_record_errors() {
    assert_eq!(add_record("", "1.2.3.4").err(), Some(AddRecordError::MissingField));
    assert_eq!(add_record("a.example", "").err(), Some(AddRecordError::MissingField));
    assert_eq!(add_record("a..example", "1.2.3.4").err(), Some(AddRecordError::InvalidName));
    assert_eq!(add_record("a.example", "1.2.3").err(), Some(AddRecordError::InvalidAddress));
    assert_eq!(AddRecordError::MissingField.message(), "name and ip required");
    assert_eq!(AddRecordError::InvalidName.message(), "invalid domain name");
    assert_eq!(AddRecordError::InvalidAddress.message(), "invalid ipv4 address");
    assert_eq!(AddRecordError::SerializationFailed.message(), "serialization failed");
}

#[test]
fn add_record_prepares_store_write() {
    let w = add_record("test.example.com", "192.168.1.1").unwrap();
    assert_eq!(w.key, b"test.example.com.:A".to_vec());
    assert_eq!(w.zone, "test.example.com");
    assert_eq!(w.entry.original_ttl, 3600);
    assert_eq!(w.entry.expires_at, u64::MAX / 2);
    assert_eq!(answer_ttls(&w.entry.data), Some(vec![3600]));
    let msg = hickory_proto::op::Message::from_vec(&w.entry.data).unwrap();
    assert!(msg.authoritative());
    let rec = &msg.answers()[0];
    assert_eq!(rec.name().to_string(), "test.example.com.");
    assert_eq!(rec.data().unwrap().to_string(), "192.168.1.1");
    let trailing_dot = add_record("test.example.com.", "192.168.1.1").unwrap();
    assert_eq!(trailing_dot.key, w.key);
    assert_eq!(trailing_dot.zone, "test.example.com.");
}

#[test]
fn added_record_answers_queries() {
    let w = add_record("printer.lan", "10.1.2.3").unwrap();
    let stored = w.entry.to_bytes();
    let qname = parse_name("printer.lan.").unwrap();
    let (mut plan, step) = RequestPlan::begin(qname, 1, 1_700_000_000, true);
    let key = match step {
        Step::Read { key } => key,
        _ => panic!("expected a read"),
    };
    assert_eq!(key, w.key);
    match plan.on_read(Some(stored)) {
        Step::Respond { reply } => {
            assert!(reply.authoritative);
            assert!(!reply.refresh);
            match reply.answer {
                Answer::Stored { data, .. } => assert_eq!(data, w.entry.data),
                _ => panic!("expected a stored answer"),
            }
        }
        _ => panic!("expected a reply"),
    }
    let _ = CacheEntry::from_bytes(&w.entry.to_bytes()).unwrap();
}
