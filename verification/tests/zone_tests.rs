use external_dns_pdns_webhook::pdns::{resolve, zone_candidates};

fn zones(names: &[&str]) -> Vec<String> {
    names.iter().map(|s| s.to_string()).collect()
}

#[test]
fn candidates_walk_outermost_first() {
    let cands = zone_candidates("a.b.example.com.");
    assert_eq!(cands, vec!["b.example.com.", "example.com.", "com."]);
}

#[test]
fn candidates_without_trailing_dot() {
    let cands = zone_candidates("host.example.com");
    assert_eq!(cands, vec!["example.com.", "com."]);
}

#[test]
fn single_label_has_no_candidates() {
    assert_eq!(zone_candidates("localhost"), Vec::<String>::new());
    assert_eq!(zone_candidates("localhost."), Vec::<String>::new());
}

#[test]
fn resolve_prefers_longest_matching_ancestor() {
    let zs = zones(&["example.com.", "com."]);
    let r = resolve("a.b.example.com.", &zs);
    assert_eq!(r.unwrap(), "example.com.");
}

#[test]
fn resolve_takes_first_candidate_in_walk_order() {
    let zs = zones(&["b.example.com.", "example.com."]);
    let r = resolve("a.b.example.com.", &zs);
    assert_eq!(r.unwrap(), "b.example.com.");
}

#[test]
fn resolve_fails_when_no_suffix_matches() {
    let zs = zones(&["example.com."]);
    let r = resolve("onlyexample.com.", &zs);
    let e = r.err().unwrap();
    assert_eq!(e.fqdn, "onlyexample.com.");
}

#[test]
fn resolve_never_tries_the_name_itself() {
    // the bare name is a known zone, but it is not a candidate
    let zs = zones(&["onlyexample.com."]);
    let r = resolve("onlyexample.com.", &zs);
    assert!(r.is_err());
}

#[test]
fn resolve_single_label_always_fails() {
    let zs = zones(&["a.", "b.", "c."]);
    assert!(resolve("a.", &zs).is_err());
}

#[test]
fn resolve_never_tries_the_root() {
    let zs = zones(&["."]);
    assert!(resolve("host.example.com.", &zs).is_err());
}
