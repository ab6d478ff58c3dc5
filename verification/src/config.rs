//! Process-wide, read-only configuration and the pure helpers derived from
//! it: the domain-filter list, the backend base URL, and the defaults.
//!
//! Loading the configuration (environment variables, secret files) happens
//! outside this crate; the resolved values are handed in as plain strings.

use crate::dns::{views_of, DomainFilter};
use crate::strutil::{
    find_char, find_char_spec, lemma_find_char, strip_char_end, strip_char_end_spec, trim,
    trim_spec,
};
use vstd::prelude::*;
use vstd::string::*;

verus! {

/// Configuration with secrets already resolved to in-memory values.
#[derive(Clone)]
pub struct Config {
    pub pdns_api_url: String,
    pub pdns_api_key: String,
    pub pdns_server_id: String,
    pub domain_filter: String,
    pub default_ttl: u32,
    pub port: u16,
}

/// The comma-separated domain filter split into entries: each entry is
/// trimmed, and empty entries are dropped.
pub open spec fn domain_filter_entries(s: Seq<char>) -> Seq<Seq<char>>
    decreases s.len(),
{
    match find_char_spec(s, ',') {
        None => if trim_spec(s).len() == 0 {
            Seq::empty()
        } else {
            seq![trim_spec(s)]
        },
        Some(i) => {
            if 0 <= i < s.len() {
                let head = trim_spec(s.take(i));
                let rest = domain_filter_entries(s.skip(i + 1));
                if head.len() == 0 {
                    rest
                } else {
                    seq![head] + rest
                }
            } else {
                Seq::empty()
            }
        },
    }
}

impl Config {
    /// The domain filter as a list of zone names, empty if unconfigured.
    pub fn domain_filter_list(&self) -> (r: Vec<String>)
        ensures
            views_of(r@) == domain_filter_entries(self.domain_filter@),
    {
        let mut out: Vec<String> = Vec::new();
        let mut rest: &str = self.domain_filter.as_str();
        loop
            invariant_except_break
                domain_filter_entries(self.domain_filter@) == views_of(out@)
                    + domain_filter_entries(rest@),
            ensures
                domain_filter_entries(self.domain_filter@) == views_of(out@),
            decreases rest@.len(),
        {
            match find_char(rest, ',') {
                Some(i) => {
                    proof {
                        lemma_find_char(rest@, ',');
                    }
                    let n = rest.unicode_len();
                    let piece = rest.substring_char(0, i);
                    let head = trim(piece);
                    let ghost prev = out@;
                    if head.unicode_len() > 0 {
                        out.push(String::from_str(head));
                    }
                    proof {
                        assert(piece@ =~= rest@.take(i as int));
                        if head@.len() > 0 {
                            assert(views_of(out@) =~= views_of(prev).push(head@));
                        }
                    }
                    let next = rest.substring_char(i + 1, n);
                    proof {
                        assert(next@ =~= rest@.skip(i as int + 1));
                        assert(views_of(out@) + domain_filter_entries(next@)
                            =~= views_of(prev) + domain_filter_entries(rest@));
                    }
                    rest = next;
                },
                None => {
                    let head = trim(rest);
                    let ghost prev = out@;
                    if head.unicode_len() > 0 {
                        out.push(String::from_str(head));
                    }
                    proof {
                        if head@.len() > 0 {
                            assert(views_of(out@) =~= views_of(prev) + seq![trim_spec(rest@)]);
                        } else {
                            assert(views_of(out@) + domain_filter_entries(rest@) =~= views_of(
                                out@,
                            ));
                        }
                    }
                    break ;
                },
            }
        }
        out
    }
}

/// The domain-filter negotiation payload for this configuration.
pub fn negotiate_filter(cfg: &Config) -> (r: DomainFilter)
    ensures
        views_of(r.allowed@) == domain_filter_entries(cfg.domain_filter@),
        r.excluded@.len() == 0,
{
    DomainFilter { allowed: cfg.domain_filter_list(), excluded: Vec::new() }
}

/// The backend REST base path: the API URL with trailing slashes removed,
/// then `/api/v1/servers/` and the server id.
pub fn base_url(cfg: &Config) -> (r: String)
    ensures
        r@ == strip_char_end_spec(cfg.pdns_api_url@, '/') + "/api/v1/servers/"@
            + cfg.pdns_server_id@,
{
    let stripped = strip_char_end(cfg.pdns_api_url.as_str(), '/');
    String::from_str(stripped).concat("/api/v1/servers/").concat(cfg.pdns_server_id.as_str())
}

/// Default backend API URL.
pub fn default_pdns_url() -> (r: String)
    ensures
        r@ == "http://localhost:8081"@,
{
    String::from_str("http://localhost:8081")
}

/// Default backend server id.
pub fn default_server_id() -> (r: String)
    ensures
        r@ == "localhost"@,
{
    String::from_str("localhost")
}

/// Default TTL applied when an endpoint does not specify one.
pub fn default_ttl() -> (r: u32)
    ensures
        r == 300,
{
    300
}

/// Default port the webhook listens on.
pub fn default_port() -> (r: u16)
    ensures
        r == 8888,
{
    8888
}

/// Default path of the mounted secret file holding the backend API key.
pub fn default_api_key_file() -> (r: String)
    ensures
        r@ == "/var/run/secrets/pdns/api-key"@,
{
    String::from_str("/var/run/secrets/pdns/api-key")
}

} // verus!
