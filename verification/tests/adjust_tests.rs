use external_dns_pdns_webhook::adjust::{
    adjust_endpoints, find_provider_specific, normalise_https_target, validate_https_target,
};
use external_dns_pdns_webhook::dns::{Endpoint, ProviderSpecific};

fn https_endpoint(name: &str, targets: &[&str], annotations: &[(&str, &str)]) -> Endpoint {
    Endpoint {
        dns_name: name.to_string(),
        record_type: "HTTPS".to_string(),
        targets: targets.iter().map(|t| t.to_string()).collect(),
        record_ttl: 0,
        labels: Vec::new(),
        provider_specific: annotations
            .iter()
            .map(|(n, v)| ProviderSpecific { name: n.to_string(), value: v.to_string() })
            .collect(),
        set_identifier: String::new(),
    }
}

#[test]
fn find_provider_specific_returns_first_match() {
    let ep = https_endpoint("h.example.com", &[], &[("other", "x"), ("key", "one"), ("key", "two")]);
    assert_eq!(find_provider_specific(&ep, "key"), Some("one".to_string()));
    assert_eq!(find_provider_specific(&ep, "missing"), None);
}

#[test]
fn validate_accepts_fully_formed_value() {
    assert_eq!(validate_https_target("1 . alpn=h2,h3"), "1 . alpn=h2,h3");
}

#[test]
fn validate_prepends_missing_priority() {
    assert_eq!(validate_https_target(". alpn=h2,h3"), "1 . alpn=h2,h3");
}

#[test]
fn prefix_check_keeps_numeric_priority() {
    assert_eq!(normalise_https_target("1 lb.example.com alpn=h2"), "1 lb.example.com alpn=h2");
}

#[test]
fn prefix_check_prepends_one() {
    assert_eq!(normalise_https_target("lb.example.com"), "1 lb.example.com");
}

#[test]
fn prefix_check_trims_but_adds_no_dot() {
    assert_eq!(normalise_https_target("  lb.example.com  "), "1 lb.example.com");
}

#[test]
fn annotation_overrides_existing_targets() {
    let ep = https_endpoint(
        "h.example.com",
        &["old.target.example"],
        &[("webhook/pdns-https-target", "1 . alpn=h2,h3")],
    );
    let out = adjust_endpoints(vec![ep]);
    assert_eq!(out.len(), 1);
    assert_eq!(out[0].targets, vec!["1 . alpn=h2,h3"]);
    assert_eq!(out[0].dns_name, "h.example.com");
}

#[test]
fn annotation_value_is_normalised() {
    let ep = https_endpoint(
        "h.example.com",
        &[],
        &[("webhook/pdns-https-target", "svc.example.com alpn=h2")],
    );
    let out = adjust_endpoints(vec![ep]);
    assert_eq!(out[0].targets, vec!["1 svc.example.com. alpn=h2"]);
}

#[test]
fn existing_targets_get_priority_prefix_only() {
    let ep = https_endpoint("h.example.com", &["lb.example.com", "2 done.example.com."], &[]);
    let out = adjust_endpoints(vec![ep]);
    assert_eq!(out[0].targets, vec!["1 lb.example.com", "2 done.example.com."]);
}

#[test]
fn https_without_targets_or_annotation_is_untouched() {
    let ep = https_endpoint("h.example.com", &[], &[]);
    let out = adjust_endpoints(vec![ep]);
    assert_eq!(out.len(), 1);
    assert!(out[0].targets.is_empty());
    assert_eq!(out[0].dns_name, "h.example.com");
}

#[test]
fn non_https_endpoints_pass_through_unchanged() {
    let ep = Endpoint {
        dns_name: "a.example.com".to_string(),
        record_type: "A".to_string(),
        targets: vec!["192.0.2.1".to_string()],
        record_ttl: 60,
        labels: Vec::new(),
        provider_specific: vec![ProviderSpecific {
            name: "webhook/pdns-https-target".to_string(),
            value: "1 .".to_string(),
        }],
        set_identifier: String::new(),
    };
    let out = adjust_endpoints(vec![ep]);
    assert_eq!(out[0].targets, vec!["192.0.2.1"]);
    assert_eq!(out[0].record_ttl, 60);
}

#[test]
fn adjustment_keeps_order_and_length() {
    let eps = vec![
        https_endpoint("one.example.com", &["t1"], &[]),
        https_endpoint("two.example.com", &[], &[]),
    ];
    let out = adjust_endpoints(eps);
    assert_eq!(out.len(), 2);
    assert_eq!(out[0].dns_name, "one.example.com");
    assert_eq!(out[1].dns_name, "two.example.com");
}

#[test]
fn adjustment_is_idempotent() {
    let eps = vec![
        https_endpoint("a.example.com", &["lb.example.com"], &[]),
        https_endpoint("b.example.com", &["old"], &[("webhook/pdns-https-target", ". alpn=h2")]),
        https_endpoint("c.example.com", &[], &[]),
    ];
    let once = adjust_endpoints(eps);
    let again: Vec<String> = once.iter().flat_map(|e| e.targets.clone()).collect();
    let twice = adjust_endpoints(once);
    let after: Vec<String> = twice.iter().flat_map(|e| e.targets.clone()).collect();
    assert_eq!(after, again);
}
