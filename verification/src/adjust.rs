//! The HTTPS target adjustment: an idempotent rewrite applied to endpoints
//! before change application.
//!
//! For every endpoint of type HTTPS: a `pdns-https-target` provider-specific
//! directive, when present, becomes the sole target after full HTTPS
//! normalization; otherwise existing targets only get the SvcPriority prefix
//! check (no trailing-dot enforcement — that happens later, at write time);
//! an HTTPS endpoint with neither is left untouched. Endpoints of any other
//! type pass through unchanged.

use crate::dns::{views_of, Endpoint, ProviderSpecific};
use crate::normalize;
use crate::normalize::normalise_https_target_spec;
use crate::strutil::{
    find_ws, find_ws_spec, is_u16_numeral, is_u16_numeral_str, lemma_find_ws,
    lemma_find_ws_is_first, lemma_one_is_numeral, lemma_trim_id, lemma_trim_props, str_eq, trim,
    trim_spec,
};
use vstd::prelude::*;
use vstd::string::*;

verus! {

/// The provider-specific directive that overrides an HTTPS endpoint's
/// targets.
pub fn https_target_annotation() -> (r: &'static str)
    ensures
        r@ == "webhook/pdns-https-target"@,
{
    "webhook/pdns-https-target"
}

/// The value of the first provider-specific entry named `key`, if any.
pub open spec fn find_ps_value(ps: Seq<ProviderSpecific>, key: Seq<char>) -> Option<String>
    decreases ps.len(),
{
    if ps.len() == 0 {
        None
    } else if ps[0].name@ == key {
        Some(ps[0].value)
    } else {
        find_ps_value(ps.skip(1), key)
    }
}

/// Find a value in an endpoint's provider-specific list by directive name:
/// the first entry with that exact name wins.
pub fn find_provider_specific(ep: &Endpoint, key: &str) -> (r: Option<String>)
    ensures
        r == find_ps_value(ep.provider_specific@, key@),
{
    let ps = &ep.provider_specific;
    let mut i: usize = 0;
    proof {
        assert(ps@.skip(0) =~= ps@);
    }
    while i < ps.len()
        invariant
            i <= ps.len(),
            ps == &ep.provider_specific,
            find_ps_value(ep.provider_specific@, key@) == find_ps_value(
                ps@.skip(i as int),
                key@,
            ),
        decreases ps.len() - i,
    {
        proof {
            assert(ps@.skip(i as int)[0] == ps@[i as int]);
            assert(ps@.skip(i as int).skip(1) =~= ps@.skip(i as int + 1));
        }
        if str_eq(ps[i].name.as_str(), key) {
            return Some(ps[i].value.clone());
        }
        i += 1;
    }
    proof {
        assert(ps@.skip(ps@.len() as int).len() == 0);
    }
    None
}

/// Validate an HTTPS SvcParam string coming from the annotation: the raw
/// value goes through the full HTTPS normalization.
pub fn validate_https_target(value: &str) -> (r: String)
    ensures
        r@ == normalise_https_target_spec(value@),
{
    normalize::normalise_https_target(value)
}

/// The SvcPriority prefix check: trim the target and prepend priority `1`
/// unless its first whitespace-separated token parses as a `u16`. Unlike the
/// full HTTPS normalization, the target name is not dot-qualified here.
pub open spec fn svc_prefixed_spec(t: Seq<char>) -> Seq<char> {
    let s = trim_spec(t);
    let tok = match find_ws_spec(s) {
        None => s,
        Some(i) => s.take(i),
    };
    if is_u16_numeral(tok) {
        s
    } else {
        seq!['1', ' '] + s
    }
}

/// Ensure an HTTPS target has a SvcPriority prefix. Used for targets that
/// came from sources other than the annotation.
pub fn normalise_https_target(target: &str) -> (r: String)
    ensures
        r@ == svc_prefixed_spec(target@),
{
    let t = trim(target);
    let numeric: bool = match find_ws(t) {
        None => is_u16_numeral_str(t),
        Some(i) => {
            proof {
                lemma_find_ws(t@);
            }
            let tok = t.substring_char(0, i);
            proof {
                assert(tok@ =~= t@.take(i as int));
            }
            is_u16_numeral_str(tok)
        },
    };
    if numeric {
        String::from_str(t)
    } else {
        proof {
            reveal_strlit("1 ");
        }
        let r = String::from_str("1 ").concat(t);
        proof {
            assert(r@ =~= seq!['1', ' '] + t@);
        }
        r
    }
}

/// `b` has the same fields as `a` except possibly its targets.
pub open spec fn same_but_targets(a: Endpoint, b: Endpoint) -> bool {
    &&& b.dns_name == a.dns_name
    &&& b.record_type == a.record_type
    &&& b.record_ttl == a.record_ttl
    &&& b.labels == a.labels
    &&& b.provider_specific == a.provider_specific
    &&& b.set_identifier == a.set_identifier
}

/// `b` is the adjusted form of `a`: non-HTTPS endpoints pass through
/// unchanged; an HTTPS endpoint's annotation value, when present, becomes
/// its sole (fully normalized) target; otherwise its existing targets get
/// the SvcPriority prefix check; with neither, it is untouched.
pub open spec fn adjusted_endpoint(a: Endpoint, b: Endpoint) -> bool {
    if a.record_type@ == "HTTPS"@ {
        match find_ps_value(a.provider_specific@, "webhook/pdns-https-target"@) {
            Some(v) => same_but_targets(a, b) && views_of(b.targets@) == seq![
                normalise_https_target_spec(v@),
            ],
            None => if a.targets@.len() == 0 {
                b == a
            } else {
                same_but_targets(a, b) && views_of(b.targets@) == views_of(a.targets@).map_values(
                    |t: Seq<char>| svc_prefixed_spec(t),
                )
            },
        }
    } else {
        b == a
    }
}

/// Apply the HTTPS target adjustment to every endpoint, in order.
pub fn adjust_endpoints(endpoints: Vec<Endpoint>) -> (r: Vec<Endpoint>)
    ensures
        r@.len() == endpoints@.len(),
        forall|i: int| 0 <= i < r@.len() ==> adjusted_endpoint(endpoints@[i], r@[i]),
{
    let ghost orig = endpoints@;
    let mut input = endpoints;
    let mut out: Vec<Endpoint> = Vec::new();
    while input.len() > 0
        invariant
            orig.len() == out@.len() + input@.len(),
            forall|i: int| 0 <= i < out@.len() ==> adjusted_endpoint(orig[i], out@[i]),
            forall|i: int| 0 <= i < input@.len() ==> input@[i] == orig[out@.len() + i],
        decreases input@.len(),
    {
        let ghost done = out@.len() as int;
        let ep = input.remove(0);
        proof {
            assert(ep == orig[done]);
        }
        if !str_eq(ep.record_type.as_str(), "HTTPS") {
            out.push(ep);
        } else {
            match find_provider_specific(&ep, https_target_annotation()) {
                Some(v) => {
                    let target = validate_https_target(v.as_str());
                    let mut ts: Vec<String> = Vec::new();
                    ts.push(target);
                    proof {
                        assert(views_of(ts@) =~= seq![normalise_https_target_spec(v@)]);
                    }
                    let adjusted = Endpoint { targets: ts, ..ep };
                    out.push(adjusted);
                },
                None => {
                    if ep.targets.len() == 0 {
                        out.push(ep);
                    } else {
                        let mut ts: Vec<String> = Vec::new();
                        let mut k: usize = 0;
                        while k < ep.targets.len()
                            invariant
                                k <= ep.targets.len(),
                                ts@.len() == k,
                                forall|j: int|
                                    0 <= j < k ==> ts@[j]@ == svc_prefixed_spec(
                                        ep.targets@[j]@,
                                    ),
                            decreases ep.targets.len() - k,
                        {
                            ts.push(normalise_https_target(ep.targets[k].as_str()));
                            k += 1;
                        }
                        proof {
                            assert(views_of(ts@) =~= views_of(ep.targets@).map_values(
                                |t: Seq<char>| svc_prefixed_spec(t),
                            ));
                        }
                        let adjusted = Endpoint { targets: ts, ..ep };
                        out.push(adjusted);
                    }
                },
            }
        }
        proof {
            assert(adjusted_endpoint(orig[done], out@[done]));
            assert forall|i: int| 0 <= i < input@.len() implies input@[i] == orig[out@.len()
                + i] by {}
        }
    }
    out
}

/// The SvcPriority prefix check is idempotent on any target that is not
/// pure whitespace.
pub proof fn lemma_svc_prefix_idempotent(t: Seq<char>)
    requires
        trim_spec(t).len() > 0,
    ensures
        svc_prefixed_spec(svc_prefixed_spec(t)) == svc_prefixed_spec(t),
{
    let s = trim_spec(t);
    lemma_trim_props(t);
    lemma_find_ws(s);
    let tok: Seq<char> = match find_ws_spec(s) {
        None => s,
        Some(i) => s.take(i),
    };
    if is_u16_numeral(tok) {
        lemma_trim_id(s);
    } else {
        let out = seq!['1', ' '] + s;
        assert(out[0] == '1');
        assert(out[1] == ' ');
        assert(out.last() == s.last());
        lemma_trim_id(out);
        lemma_find_ws_is_first(out, 1);
        assert(out.take(1) =~= seq!['1']);
        lemma_one_is_numeral();
        assert(svc_prefixed_spec(out) == out);
    }
}

/// The HTTPS target adjustment is idempotent: adjusting an already-adjusted
/// endpoint leaves it unchanged, as long as none of the incoming targets was
/// pure whitespace.
pub proof fn lemma_adjust_idempotent(a: Endpoint, b: Endpoint)
    requires
        adjusted_endpoint(a, b),
        forall|j: int| 0 <= j < a.targets@.len() ==> trim_spec(a.targets@[j]@).len() > 0,
    ensures
        adjusted_endpoint(b, b),
{
    if a.record_type@ == "HTTPS"@ {
        match find_ps_value(a.provider_specific@, "webhook/pdns-https-target"@) {
            Some(v) => {
                assert(b.record_type == a.record_type);
                assert(b.provider_specific == a.provider_specific);
            },
            None => {
                if a.targets@.len() == 0 {
                } else {
                    assert(b.record_type == a.record_type);
                    assert(b.provider_specific == a.provider_specific);
                    let f = |t: Seq<char>| svc_prefixed_spec(t);
                    assert(views_of(b.targets@) == views_of(a.targets@).map_values(f));
                    assert(views_of(b.targets@).map_values(f) =~= views_of(b.targets@)) by {
                        assert forall|j: int|
                            0 <= j < b.targets@.len() implies f(views_of(b.targets@)[j])
                            == views_of(b.targets@)[j] by {
                            assert(views_of(b.targets@)[j] == views_of(a.targets@).map_values(
                                f,
                            )[j]);
                            assert(views_of(b.targets@)[j] == svc_prefixed_spec(
                                a.targets@[j]@,
                            ));
                            lemma_svc_prefix_idempotent(a.targets@[j]@);
                        }
                    }
                }
            },
        }
    }
}

} // verus!
