use hickory_bunker::names::{parse_name, record_type_text, store_key_for, DomainName};
use hickory_bunker::text::{contains, to_lowercase};

fn name(labels: &[&str], fqdn: bool) -> DomainName {
    DomainName { labels: labels.iter().map(|l| l.to_string()).collect(), fqdn }
}

#[test]
fn parse_name_splits_labels() {
    let n = parse_name("www.example.com.").unwrap();
    assert_eq!(n.labels, vec!["www".to_string(), "example".to_string(), "com".to_string()]);
    assert!(n.fqdn);
    let relative = parse_name("host.lan").unwrap();
    assert_eq!(relative.labels, vec!["host".to_string(), "lan".to_string()]);
    assert!(!relative.fqdn);
}

#[test]
fn parse_name_rejects_bad_names() {
    assert!(parse_name("a..b.").is_none());
    let long_label = "x".repeat(64) + ".com.";
    assert!(parse_name(&long_label).is_none());
}

#[test]
fn text_joins_labels() {
    assert_eq!(name(&["www", "example", "com"], true).to_text(), "www.example.com.");
    assert_eq!(name(&["www", "example"], false).to_text(), "www.example");
    assert_eq!(name(&[], true).to_text(), ".");
    assert_eq!(name(&[], false).to_text(), "");
}

#[test]
fn text_matches_hickory_display() {
    for s in ["www.example.com.", "example.com", "a.b.c.d.e.", "xn--bcher-kva.example."].iter() {
        let ours = parse_name(s).unwrap().to_text();
        let theirs = <hickory_proto::rr::Name as std::str::FromStr>::from_str(s).unwrap().to_string();
        assert_eq!(ours, theirs, "name {:?}", s);
    }
}

#[test]
fn ancestors_drop_leftmost_labels() {
    let n = name(&["a", "b", "c"], true);
    assert_eq!(n.ancestor(0).to_text(), "a.b.c.");
    assert_eq!(n.ancestor(1).to_text(), "b.c.");
    assert_eq!(n.ancestor(2).to_text(), "c.");
    assert_eq!(n.ancestor(3).to_text(), ".");
    assert_eq!(n.label_count(), 3);
}

#[test]
fn record_type_mnemonics() {
    assert_eq!(record_type_text(1), "A");
    assert_eq!(record_type_text(2), "NS");
    assert_eq!(record_type_text(5), "CNAME");
    assert_eq!(record_type_text(6), "SOA");
    assert_eq!(record_type_text(28), "AAAA");
    assert_eq!(record_type_text(65), "HTTPS");
    assert_eq!(record_type_text(12), "PTR");
    assert_eq!(record_type_text(4242), "Unknown");
}

#[test]
fn store_keys_are_name_colon_type() {
    let n = name(&["test", "example", "com"], true);
    assert_eq!(store_key_for(&n, 1), b"test.example.com.:A".to_vec());
    assert_eq!(store_key_for(&n, 6), b"test.example.com.:SOA".to_vec());
    assert_eq!(store_key_for(&name(&[], true), 2), b".:NS".to_vec());
}

#[test]
fn contains_finds_substrings() {
    assert!(contains("www.msftconnecttest.com.", "msftconnecttest"));
    assert!(contains("abc", ""));
    assert!(contains("abc", "abc"));
    assert!(!contains("ab", "abc"));
    assert!(!contains("connectivity-check.example.", "connectivitycheck"));
    assert!(contains("1.0.0.127.in-addr.arpa.", "arpa"));
}

#[test]
fn lowercase_uses_unicode_rules() {
    assert_eq!(to_lowercase("WwW.Example.COM."), "www.example.com.");
    assert_eq!(to_lowercase("ÄB"), "äb");
    assert_eq!(to_lowercase("Mixed-Case_09.Z"), "mixed-case_09.z");
}
