use std::collections::HashMap;

use hickory_bunker::handler::{response_ttl, Answer, Rcode, Reply, RequestPlan, Step};
use hickory_bunker::names::{store_key_for, DomainName};
use hickory_bunker::storage::CacheEntry;
use hickory_bunker::wire::a_response_bytes;

fn name(s: &str) -> DomainName {
    DomainName { labels: s.split('.').map(|l| l.to_string()).collect(), fqdn: true }
}

fn put(store: &mut HashMap<Vec<u8>, Vec<u8>>, n: &DomainName, qtype: u16, data: Vec<u8>, expires_at: u64) {
    let entry = CacheEntry { data, expires_at, original_ttl: 60 };
    store.insert(store_key_for(n, qtype), entry.to_bytes());
}

/// Answers every read from `store`; returns the final step and the keys read.
fn drive(qname: &str, qtype: u16, now: u64, offline: bool, store: &HashMap<Vec<u8>, Vec<u8>>) -> (RequestPlan, Step, Vec<Vec<u8>>) {
    let (mut plan, mut step) = RequestPlan::begin(name(qname), qtype, now, offline);
    let mut reads = Vec::new();
    loop {
        match step {
            Step::Read { key } => {
                let v = store.get(&key).cloned();
                reads.push(key);
                step = plan.on_read(v);
            }
            Step::Scan { prefix } => {
                let values: Vec<Vec<u8>> = store
                    .iter()
                    .filter(|(k, _)| k.starts_with(&prefix))
                    .map(|(_, v)| v.clone())
                    .collect();
                reads.push(prefix);
                step = plan.on_scan(values);
            }
            other => return (plan, other, reads),
        }
    }
}

fn reply(step: Step) -> Reply {
    match step {
        Step::Respond { reply } => reply,
        _ => panic!("expected a reply"),
    }
}

fn wire() -> Vec<u8> {
    a_response_bytes("example.com.", 300, [10, 0, 0, 1], true).unwrap()
}

#[test]
fn exact_name_is_served_from_store() {
    let mut store = HashMap::new();
    put(&mut store, &name("www.example.com"), 1, wire(), 5000);
    let (_, step, reads) = drive("www.example.com", 1, 1000, false, &store);
    assert_eq!(reads, vec![b"www.example.com.:A".to_vec()]);
    let r = reply(step);
    assert!(r.authoritative);
    assert_eq!(r.expires_at, 5000);
    assert!(!r.refresh);
    match r.answer {
        Answer::Stored { data, owner } => {
            assert_eq!(data, wire());
            assert_eq!(owner.to_text(), "www.example.com.");
        }
        _ => panic!("expected a stored answer"),
    }
}

#[test]
fn nearest_ancestor_answers() {
    let mut store = HashMap::new();
    put(&mut store, &name("example.com"), 1, wire(), 500);
    put(&mut store, &name("com"), 1, wire(), 9000);
    let (_, step, reads) = drive("a.b.example.com", 1, 1000, false, &store);
    assert_eq!(
        reads,
        vec![b"a.b.example.com.:A".to_vec(), b"b.example.com.:A".to_vec(), b"example.com.:A".to_vec()]
    );
    let r = reply(step);
    assert_eq!(r.expires_at, 500);
    assert!(r.refresh, "expired online answers are refreshed");
    match r.answer {
        Answer::Stored { owner, .. } => assert_eq!(owner.to_text(), "example.com."),
        _ => panic!("expected a stored answer"),
    }
}

#[test]
fn undecodable_stored_message_is_skipped() {
    let mut store = HashMap::new();
    put(&mut store, &name("x.example.com"), 1, vec![1, 2, 3], 5000);
    put(&mut store, &name("example.com"), 1, wire(), 5000);
    let (_, step, _) = drive("x.example.com", 1, 1000, true, &store);
    match reply(step).answer {
        Answer::Stored { owner, .. } => assert_eq!(owner.to_text(), "example.com."),
        _ => panic!("expected the ancestor's answer"),
    }
}

#[test]
fn existing_name_gets_nodata() {
    let mut store = HashMap::new();
    put(&mut store, &name("host.lan"), 5, wire(), 5000);
    let (_, step, reads) = drive("host.lan", 28, 1000, false, &store);
    assert_eq!(reads.len(), 2 + 1);
    assert_eq!(reads[2], b"host.lan.:".to_vec());
    let r = reply(step);
    assert!(matches!(r.answer, Answer::Empty { rcode: Rcode::NoError }));
    assert!(r.authoritative);
    assert_eq!(r.expires_at, 1060);
}

#[test]
fn offline_portal_probe_gets_loopback() {
    let store = HashMap::new();
    let (_, step, _) = drive("www.msftconnecttest.com", 1, 1000, true, &store);
    let r = reply(step);
    assert!(matches!(r.answer, Answer::Loopback));
    assert!(r.authoritative);
    assert_eq!(r.expires_at, 1030);
    let (_, step, _) = drive("connectivitycheck.gstatic.com", 28, 1000, true, &store);
    assert!(matches!(reply(step).answer, Answer::Empty { rcode: Rcode::NoError }));
}

#[test]
fn offline_noise_is_silenced_and_the_rest_fails() {
    let store = HashMap::new();
    for qtype in [28u16, 65, 12].iter() {
        let (_, step, _) = drive("www.example.com", *qtype, 1000, true, &store);
        assert!(matches!(reply(step).answer, Answer::Empty { rcode: Rcode::NoError }));
    }
    let (_, step, _) = drive("4.3.2.1.in-addr.arpa", 1, 1000, true, &store);
    assert!(matches!(reply(step).answer, Answer::Empty { rcode: Rcode::NoError }));
    let (_, step, _) = drive("www.example.com", 1, 1000, true, &store);
    let r = reply(step);
    assert!(matches!(r.answer, Answer::Empty { rcode: Rcode::ServFail }));
    assert_eq!(r.expires_at, 1030);
}

#[test]
fn online_miss_goes_upstream() {
    let store = HashMap::new();
    let (plan, step, reads) = drive("www.example.com", 1, 1000, false, &store);
    assert!(matches!(step, Step::Resolve));
    assert_eq!(reads.len(), 3 + 1);
    let ok = plan.on_resolved(Some(wire()));
    assert!(matches!(ok.answer, Answer::Upstream { .. }));
    assert!(!ok.authoritative);
    assert_eq!(ok.expires_at, 1300);
    let bad = plan.on_resolved(Some(vec![0]));
    assert!(matches!(bad.answer, Answer::Empty { rcode: Rcode::ServFail }));
    assert_eq!(bad.expires_at, 1000);
    let none = plan.on_resolved(None);
    assert!(matches!(none.answer, Answer::Empty { rcode: Rcode::ServFail }));
}

#[test]
fn portal_names_are_not_special_online() {
    let store = HashMap::new();
    let (_, step, _) = drive("detectportal.firefox.com", 1, 1000, false, &store);
    assert!(matches!(step, Step::Resolve));
}

#[test]
fn reply_ttls() {
    assert_eq!(response_ttl(true, 99999, 0), 30);
    assert_eq!(response_ttl(false, 100, 100), 10);
    assert_eq!(response_ttl(false, 100, 200), 10);
    assert_eq!(response_ttl(false, 160, 100), 60);
    assert_eq!(response_ttl(false, 100 + 7200, 100), 3600);
}

#[test]
fn name_stored_under_any_type_gets_nodata() {
    let mut store = HashMap::new();
    put(&mut store, &name("zone.lan"), 2, wire(), 5000);
    let (_, step, _) = drive("zone.lan", 1, 1000, true, &store);
    let r = reply(step);
    assert!(matches!(r.answer, Answer::Empty { rcode: Rcode::NoError }));
    assert!(r.authoritative);
    // Keys of other names that share a textual prefix do not count.
    let mut other = HashMap::new();
    put(&mut other, &name("xzone.lan"), 2, wire(), 5000);
    put(&mut other, &name("a.zone.lan"), 2, wire(), 5000);
    let (_, step, _) = drive("zone.lan", 1, 1000, true, &other);
    assert!(matches!(reply(step).answer, Answer::Empty { rcode: Rcode::ServFail }));
}

#[test]
fn undecodable_values_do_not_show_existence() {
    let mut store = HashMap::new();
    store.insert(b"zone.lan.:TXT".to_vec(), vec![1, 2, 3]);
    let (_, step, _) = drive("zone.lan", 1, 1000, true, &store);
    assert!(matches!(reply(step).answer, Answer::Empty { rcode: Rcode::ServFail }));
}
