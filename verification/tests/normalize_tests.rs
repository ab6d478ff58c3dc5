use external_dns_pdns_webhook::normalize::{ensure_fqdn, normalise_https_target, normalise_target};

#[test]
fn ensure_fqdn_appends_dot() {
    assert_eq!(ensure_fqdn("lb.domain.com"), "lb.domain.com.");
}

#[test]
fn ensure_fqdn_keeps_existing_dot() {
    assert_eq!(ensure_fqdn("lb.domain.com."), "lb.domain.com.");
}

#[test]
fn ensure_fqdn_empty_becomes_root() {
    assert_eq!(ensure_fqdn(""), ".");
}

#[test]
fn a_records_pass_through() {
    assert_eq!(normalise_target("A", "192.0.2.10"), "192.0.2.10");
}

#[test]
fn aaaa_records_pass_through() {
    assert_eq!(normalise_target("AAAA", "2001:db8::1"), "2001:db8::1");
}

#[test]
fn txt_records_pass_through() {
    assert_eq!(normalise_target("TXT", "\"v=spf1 -all\""), "\"v=spf1 -all\"");
}

#[test]
fn cname_gets_trailing_dot() {
    assert_eq!(normalise_target("CNAME", "lb.domain.com"), "lb.domain.com.");
}

#[test]
fn mx_gets_trailing_dot() {
    assert_eq!(normalise_target("MX", "10 mail.domain"), "10 mail.domain.");
}

#[test]
fn ns_with_dot_is_unchanged() {
    assert_eq!(normalise_target("NS", "ns1.domain.com."), "ns1.domain.com.");
}

#[test]
fn unknown_type_is_name_valued() {
    assert_eq!(normalise_target("ALIAS", "target.example.org"), "target.example.org.");
}

#[test]
fn https_already_correct_is_unchanged() {
    assert_eq!(normalise_https_target("1 . alpn=h2,h3"), "1 . alpn=h2,h3");
}

#[test]
fn https_target_name_gets_dot() {
    assert_eq!(normalise_https_target("1 lb.domain.com alpn=h2"), "1 lb.domain.com. alpn=h2");
}

#[test]
fn https_bare_hostname_gets_priority_and_dot() {
    assert_eq!(normalise_https_target("lb.domain.com"), "1 lb.domain.com.");
}

#[test]
fn https_missing_priority_is_prepended() {
    assert_eq!(normalise_https_target("foo bar"), "1 foo. bar");
}

#[test]
fn https_priority_zero_is_kept() {
    assert_eq!(normalise_https_target("0 svc.example.com."), "0 svc.example.com.");
}

#[test]
fn https_overlarge_priority_is_not_numeric() {
    assert_eq!(normalise_https_target("65536 host"), "1 65536. host");
}

#[test]
fn https_max_priority_is_numeric() {
    assert_eq!(normalise_https_target("65535 host"), "65535 host.");
}

#[test]
fn https_empty_input_becomes_alias_form() {
    assert_eq!(normalise_https_target(""), "1 .");
}

#[test]
fn https_input_is_trimmed() {
    assert_eq!(normalise_https_target("  1 lb.domain.com  "), "1 lb.domain.com.");
}

#[test]
fn https_normalisation_is_idempotent() {
    let inputs = [
        "1 . alpn=h2,h3",
        "1 lb.domain.com alpn=h2",
        "lb.domain.com",
        "foo bar",
        "",
        "  spaced   out  ",
        "65536 host",
        "+7 target extra words here",
        "0 .",
    ];
    for s in inputs {
        let once = normalise_https_target(s);
        let twice = normalise_https_target(&once);
        assert_eq!(twice, once);
    }
}

#[test]
fn target_normalisation_is_idempotent_per_type() {
    for ty in ["A", "AAAA", "TXT", "CNAME", "MX", "HTTPS", "SRV"] {
        for s in ["host", "host.", "1 host params", "a b c"] {
            let once = normalise_target(ty, s);
            let twice = normalise_target(ty, &once);
            assert_eq!(twice, once);
        }
    }
}
