use external_dns_pdns_webhook::dns::Endpoint;
use external_dns_pdns_webhook::pdns::{
    build_delete_rrset, build_rrset, list_endpoints, to_endpoint, Record, RrSet, Zone,
};

fn endpoint(name: &str, ty: &str, targets: &[&str], ttl: u32) -> Endpoint {
    Endpoint {
        dns_name: name.to_string(),
        record_type: ty.to_string(),
        targets: targets.iter().map(|t| t.to_string()).collect(),
        record_ttl: ttl,
        labels: Vec::new(),
        provider_specific: Vec::new(),
        set_identifier: String::new(),
    }
}

fn rrset(name: &str, ty: &str, ttl: u32, records: &[(&str, bool)]) -> RrSet {
    RrSet {
        name: name.to_string(),
        rrtype: ty.to_string(),
        ttl,
        records: records
            .iter()
            .map(|(c, d)| Record { content: c.to_string(), disabled: *d })
            .collect(),
        changetype: None,
    }
}

#[test]
fn build_rrset_normalizes_and_qualifies() {
    let ep = endpoint("www.example.com", "CNAME", &["lb.example.com"], 0);
    let rs = build_rrset(&ep, 300, "REPLACE");
    assert_eq!(rs.name, "www.example.com.");
    assert_eq!(rs.rrtype, "CNAME");
    assert_eq!(rs.ttl, 300);
    assert_eq!(rs.changetype.as_deref(), Some("REPLACE"));
    assert_eq!(rs.records.len(), 1);
    assert_eq!(rs.records[0].content, "lb.example.com.");
    assert!(!rs.records[0].disabled);
}

#[test]
fn build_rrset_keeps_nonzero_ttl() {
    let ep = endpoint("www.example.com", "A", &["192.0.2.1"], 60);
    let rs = build_rrset(&ep, 300, "REPLACE");
    assert_eq!(rs.ttl, 60);
    assert_eq!(rs.records[0].content, "192.0.2.1");
}

#[test]
fn build_delete_rrset_has_no_records() {
    let ep = endpoint("www.example.com", "A", &["192.0.2.1"], 60);
    let rs = build_delete_rrset(&ep);
    assert_eq!(rs.name, "www.example.com.");
    assert_eq!(rs.rrtype, "A");
    assert_eq!(rs.ttl, 0);
    assert!(rs.records.is_empty());
    assert_eq!(rs.changetype.as_deref(), Some("DELETE"));
}

#[test]
fn to_endpoint_drops_disabled_records() {
    let rs = rrset("host.example.com.", "A", 120, &[("192.0.2.1", false), ("192.0.2.2", true)]);
    let ep = to_endpoint(&rs).unwrap();
    assert_eq!(ep.dns_name, "host.example.com");
    assert_eq!(ep.record_type, "A");
    assert_eq!(ep.targets, vec!["192.0.2.1"]);
    assert_eq!(ep.record_ttl, 120);
}

#[test]
fn to_endpoint_all_disabled_yields_nothing() {
    let rs = rrset("host.example.com.", "A", 120, &[("192.0.2.1", true), ("192.0.2.2", true)]);
    assert!(to_endpoint(&rs).is_none());
}

#[test]
fn round_trip_reproduces_endpoint_up_to_normalization() {
    let ep = endpoint("www.example.com", "CNAME", &["lb.example.com"], 0);
    let back = to_endpoint(&build_rrset(&ep, 300, "REPLACE")).unwrap();
    assert_eq!(back.dns_name, ep.dns_name);
    assert_eq!(back.record_type, ep.record_type);
    assert_eq!(back.targets, vec!["lb.example.com."]);
    assert_eq!(back.record_ttl, 300);
}

#[test]
fn round_trip_is_exact_for_address_records() {
    let ep = endpoint("www.example.com", "A", &["192.0.2.1", "192.0.2.2"], 600);
    let back = to_endpoint(&build_rrset(&ep, 300, "REPLACE")).unwrap();
    assert_eq!(back.dns_name, ep.dns_name);
    assert_eq!(back.record_type, ep.record_type);
    assert_eq!(back.targets, ep.targets);
    assert_eq!(back.record_ttl, 600);
}

#[test]
fn list_endpoints_drops_disabled_and_counts_one() {
    let zone = Zone {
        rrsets: vec![rrset(
            "host.example.com.",
            "A",
            300,
            &[("192.0.2.1", false), ("192.0.2.2", true)],
        )],
    };
    let eps = list_endpoints(&vec![zone], &Vec::new());
    assert_eq!(eps.len(), 1);
    assert_eq!(eps[0].dns_name, "host.example.com");
    assert_eq!(eps[0].targets, vec!["192.0.2.1"]);
}

#[test]
fn list_endpoints_skips_unmanaged_types() {
    let zone = Zone {
        rrsets: vec![
            rrset("example.com.", "SOA", 3600, &[("ns1. admin. 1 2 3 4 5", false)]),
            rrset("example.com.", "NS", 3600, &[("ns1.example.com.", false)]),
            rrset("example.com.", "TXT", 300, &[("\"hello\"", false)]),
        ],
    };
    let eps = list_endpoints(&vec![zone], &Vec::new());
    assert_eq!(eps.len(), 1);
    assert_eq!(eps[0].record_type, "TXT");
}

#[test]
fn list_endpoints_applies_domain_filter() {
    let zone = Zone {
        rrsets: vec![
            rrset("host.example.com.", "A", 300, &[("192.0.2.1", false)]),
            rrset("other.org.", "A", 300, &[("192.0.2.2", false)]),
        ],
    };
    let filter = vec!["example.com".to_string()];
    let eps = list_endpoints(&vec![zone], &filter);
    assert_eq!(eps.len(), 1);
    assert_eq!(eps[0].dns_name, "host.example.com");
}

#[test]
fn domain_filter_is_plain_suffix_containment() {
    // "ample.com" matches "example.com": the filter is not label-aware
    let zone = Zone { rrsets: vec![rrset("example.com.", "A", 300, &[("192.0.2.1", false)])] };
    let filter = vec!["ample.com".to_string()];
    let eps = list_endpoints(&vec![zone], &filter);
    assert_eq!(eps.len(), 1);
}

#[test]
fn list_endpoints_walks_zones_in_order() {
    let z1 = Zone { rrsets: vec![rrset("a.example.com.", "A", 300, &[("192.0.2.1", false)])] };
    let z2 = Zone { rrsets: vec![rrset("b.other.org.", "A", 300, &[("192.0.2.2", false)])] };
    let eps = list_endpoints(&vec![z1, z2], &Vec::new());
    assert_eq!(eps.len(), 2);
    assert_eq!(eps[0].dns_name, "a.example.com");
    assert_eq!(eps[1].dns_name, "b.other.org");
}
