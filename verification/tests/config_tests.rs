use external_dns_pdns_webhook::config::{
    base_url, default_api_key_file, default_pdns_url, default_port, default_server_id,
    default_ttl, negotiate_filter, Config,
};

fn config(api_url: &str, server_id: &str, filter: &str) -> Config {
    Config {
        pdns_api_url: api_url.to_string(),
        pdns_api_key: "SECRET-REDACTED".to_string(),
        pdns_server_id: server_id.to_string(),
        domain_filter: filter.to_string(),
        default_ttl: 300,
        port: 8888,
    }
}

#[test]
fn domain_filter_splits_trims_and_drops_empties() {
    let cfg = config("http://localhost:8081", "localhost", " example.com,other.org , ,");
    assert_eq!(cfg.domain_filter_list(), vec!["example.com", "other.org"]);
}

#[test]
fn empty_domain_filter_yields_empty_list() {
    let cfg = config("http://localhost:8081", "localhost", "");
    assert!(cfg.domain_filter_list().is_empty());
}

#[test]
fn single_entry_domain_filter() {
    let cfg = config("http://localhost:8081", "localhost", "example.com");
    assert_eq!(cfg.domain_filter_list(), vec!["example.com"]);
}

#[test]
fn negotiation_payload_has_empty_deny_list() {
    let cfg = config("http://localhost:8081", "localhost", "example.com,other.org");
    let f = negotiate_filter(&cfg);
    assert_eq!(f.allowed, vec!["example.com", "other.org"]);
    assert!(f.excluded.is_empty());
}

#[test]
fn base_url_strips_trailing_slashes() {
    let cfg = config("http://powerdns:8081/", "localhost", "");
    assert_eq!(base_url(&cfg), "http://powerdns:8081/api/v1/servers/localhost");
}

#[test]
fn base_url_without_trailing_slash() {
    let cfg = config("http://powerdns:8081", "pdns-main", "");
    assert_eq!(base_url(&cfg), "http://powerdns:8081/api/v1/servers/pdns-main");
}

#[test]
fn defaults_are_fixed() {
    assert_eq!(default_pdns_url(), "http://localhost:8081");
    assert_eq!(default_server_id(), "localhost");
    assert_eq!(default_ttl(), 300);
    assert_eq!(default_port(), 8888);
    assert_eq!(default_api_key_file(), "/var/run/secrets/pdns/api-key");
}
