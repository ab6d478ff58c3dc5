//! The backend's RRset model and the pure core of every backend interaction:
//! converting endpoints to RRsets and back, finding the owning zone of a name
//! by the longest-suffix walk, and reconstructing endpoints from whole zones.
//!
//! The HTTP calls themselves (list zones, fetch a zone, PATCH an RRset) live
//! outside this crate; they hand these functions plain values.

use crate::dns::{views_of, Endpoint};
use crate::normalize::{
    ends_with_dot, ensure_fqdn, ensure_fqdn_spec, normalise_target, normalise_target_spec,
};
use crate::strutil::{
    find_char, find_char_spec, is_suffix_spec, lemma_find_char, str_ends_with, str_eq,
    strip_char_end, strip_char_end_spec,
};
use vstd::prelude::*;
use vstd::string::*;

verus! {

/// Zone list entry returned by the backend: id and canonical name.
pub struct ZoneStub {
    pub id: String,
    pub name: String,
}

/// One record of an RRset: its wire-format content and a disabled flag.
#[derive(Clone)]
pub struct Record {
    pub content: String,
    pub disabled: bool,
}

/// The backend's unit of mutation: a named, typed set of records with one
/// TTL, plus a change discriminator used only on write.
#[derive(Clone)]
pub struct RrSet {
    pub name: String,
    pub rrtype: String,
    pub ttl: u32,
    pub records: Vec<Record>,
    pub changetype: Option<String>,
}

/// A zone with all its RRsets, as read from the backend.
pub struct Zone {
    pub rrsets: Vec<RrSet>,
}

// ─── endpoint → RRset ────────────────────────────────────────────────────────

/// `rs` is the write-side RRset for `ep`: fully-qualified name, same type,
/// the endpoint's TTL (or the default when unspecified), one enabled record
/// per target with the type-keyed normalized content, and change type `ct`.
pub open spec fn rrset_matches_endpoint(
    rs: RrSet,
    ep: Endpoint,
    default_ttl: u32,
    ct: Seq<char>,
) -> bool {
    &&& rs.name@ == ensure_fqdn_spec(ep.dns_name@)
    &&& rs.rrtype@ == ep.record_type@
    &&& rs.ttl == (if ep.record_ttl > 0 {
        ep.record_ttl
    } else {
        default_ttl
    })
    &&& (rs.changetype matches Some(c) && c@ == ct)
    &&& rs.records@.len() == ep.targets@.len()
    &&& (forall|i: int|
        0 <= i < rs.records@.len() ==> rs.records@[i].content@ == normalise_target_spec(
            ep.record_type@,
            ep.targets@[i]@,
        ) && !rs.records@[i].disabled)
}

/// Build the RRset that realizes `ep` on the backend, with the given change
/// type (`REPLACE` on upserts).
pub fn build_rrset(ep: &Endpoint, default_ttl: u32, changetype: &str) -> (rs: RrSet)
    ensures
        rrset_matches_endpoint(rs, *ep, default_ttl, changetype@),
{
    let ttl = if ep.record_ttl > 0 {
        ep.record_ttl
    } else {
        default_ttl
    };
    let mut records: Vec<Record> = Vec::new();
    let mut k: usize = 0;
    while k < ep.targets.len()
        invariant
            k <= ep.targets.len(),
            records@.len() == k,
            forall|i: int|
                0 <= i < k ==> records@[i].content@ == normalise_target_spec(
                    ep.record_type@,
                    ep.targets@[i]@,
                ) && !records@[i].disabled,
        decreases ep.targets.len() - k,
    {
        let content = normalise_target(ep.record_type.as_str(), ep.targets[k].as_str());
        records.push(Record { content, disabled: false });
        k += 1;
    }
    RrSet {
        name: ensure_fqdn(ep.dns_name.as_str()),
        rrtype: ep.record_type.clone(),
        ttl,
        records,
        changetype: Some(String::from_str(changetype)),
    }
}

/// `rs` is the deletion RRset for `ep`: fully-qualified name, same type, no
/// records, and change type `DELETE`.
pub open spec fn is_delete_rrset_for(rs: RrSet, ep: Endpoint) -> bool {
    &&& rs.name@ == ensure_fqdn_spec(ep.dns_name@)
    &&& rs.rrtype@ == ep.record_type@
    &&& rs.ttl == 0
    &&& rs.records@.len() == 0
    &&& (rs.changetype matches Some(c) && c@ == "DELETE"@)
}

/// Build the RRset that deletes `ep`'s record set on the backend.
pub fn build_delete_rrset(ep: &Endpoint) -> (rs: RrSet)
    ensures
        is_delete_rrset_for(rs, *ep),
{
    RrSet {
        name: ensure_fqdn(ep.dns_name.as_str()),
        rrtype: ep.record_type.clone(),
        ttl: 0,
        records: Vec::new(),
        changetype: Some(String::from_str("DELETE")),
    }
}

// ─── RRset → endpoint ────────────────────────────────────────────────────────

/// The contents of the non-disabled records, in order.
pub open spec fn enabled_contents(rs: Seq<Record>) -> Seq<Seq<char>>
    decreases rs.len(),
{
    if rs.len() == 0 {
        Seq::empty()
    } else {
        let rest = enabled_contents(rs.drop_last());
        if !rs.last().disabled {
            rest.push(rs.last().content@)
        } else {
            rest
        }
    }
}

/// `ep` is the read-side endpoint for `rs`: the name without its trailing
/// dot, the same type and TTL, the non-disabled contents as targets, and
/// every other field empty.
pub open spec fn endpoint_of_rrset(ep: Endpoint, rs: RrSet) -> bool {
    &&& ep.dns_name@ == strip_char_end_spec(rs.name@, '.')
    &&& ep.record_type@ == rs.rrtype@
    &&& views_of(ep.targets@) == enabled_contents(rs.records@)
    &&& ep.record_ttl == rs.ttl
    &&& ep.labels@.len() == 0
    &&& ep.provider_specific@.len() == 0
    &&& ep.set_identifier@.len() == 0
}

/// Convert a backend RRset back to a protocol endpoint. Disabled records are
/// dropped, not surfaced; an RRset whose records are all disabled yields no
/// endpoint.
pub fn to_endpoint(rs: &RrSet) -> (r: Option<Endpoint>)
    ensures
        match r {
            Some(ep) => enabled_contents(rs.records@).len() > 0 && endpoint_of_rrset(ep, *rs),
            None => enabled_contents(rs.records@).len() == 0,
        },
{
    let mut targets: Vec<String> = Vec::new();
    let mut k: usize = 0;
    while k < rs.records.len()
        invariant
            k <= rs.records.len(),
            views_of(targets@) == enabled_contents(rs.records@.take(k as int)),
        decreases rs.records.len() - k,
    {
        let ghost prev = targets@;
        if !rs.records[k].disabled {
            targets.push(rs.records[k].content.clone());
        }
        proof {
            let pre = rs.records@.take(k as int);
            let post = rs.records@.take(k as int + 1);
            assert(post.drop_last() =~= pre);
            assert(post.last() == rs.records@[k as int]);
            if !rs.records@[k as int].disabled {
                assert(views_of(targets@) =~= views_of(prev).push(
                    rs.records@[k as int].content@,
                ));
            }
        }
        k += 1;
    }
    proof {
        assert(rs.records@.take(rs.records@.len() as int) =~= rs.records@);
    }
    if targets.len() == 0 {
        proof {
            assert(views_of(targets@).len() == targets@.len());
        }
        return None;
    }
    proof {
        assert(views_of(targets@).len() == targets@.len());
    }
    let name = strip_char_end(rs.name.as_str(), '.');
    Some(
        Endpoint {
            dns_name: String::from_str(name),
            record_type: rs.rrtype.clone(),
            targets,
            record_ttl: rs.ttl,
            labels: Vec::new(),
            provider_specific: Vec::new(),
            set_identifier: String::new(),
        },
    )
}

// ─── zone resolution ─────────────────────────────────────────────────────────

/// The candidate owning zones of a (dot-stripped) name, in walk order: for
/// each dot, the labels after it joined back together and dot-terminated.
/// The name itself is never a candidate, nor is the DNS root; a single-label
/// name has no candidates at all.
pub open spec fn candidates_spec(s: Seq<char>) -> Seq<Seq<char>>
    decreases s.len(),
{
    match find_char_spec(s, '.') {
        None => Seq::empty(),
        Some(i) => {
            if 0 <= i < s.len() {
                let rest = s.skip(i + 1);
                seq![rest.push('.')] + candidates_spec(rest)
            } else {
                Seq::empty()
            }
        },
    }
}

/// The candidate owning zones for `fqdn`, outermost first: its trailing dots
/// are stripped, then each ancestor suffix (skipping the leaf label by label)
/// is emitted dot-terminated.
pub fn zone_candidates(fqdn: &str) -> (cands: Vec<String>)
    ensures
        views_of(cands@) == candidates_spec(strip_char_end_spec(fqdn@, '.')),
{
    let stripped = strip_char_end(fqdn, '.');
    let mut out: Vec<String> = Vec::new();
    let mut rest: &str = stripped;
    loop
        invariant_except_break
            candidates_spec(strip_char_end_spec(fqdn@, '.')) == views_of(out@) + candidates_spec(
                rest@,
            ),
        ensures
            candidates_spec(strip_char_end_spec(fqdn@, '.')) == views_of(out@),
        decreases rest@.len(),
    {
        match find_char(rest, '.') {
            None => {
                proof {
                    assert(views_of(out@) + candidates_spec(rest@) =~= views_of(out@));
                }
                break ;
            },
            Some(i) => {
                proof {
                    lemma_find_char(rest@, '.');
                }
                let n = rest.unicode_len();
                let suffix = rest.substring_char(i + 1, n);
                proof {
                    reveal_strlit(".");
                    assert(suffix@ =~= rest@.skip(i as int + 1));
                }
                let cand = String::from_str(suffix).concat(".");
                let ghost prev = out@;
                proof {
                    assert(cand@ =~= rest@.skip(i as int + 1).push('.'));
                }
                out.push(cand);
                proof {
                    assert(views_of(out@) =~= views_of(prev).push(cand@));
                    assert(views_of(out@) + candidates_spec(suffix@) =~= views_of(prev)
                        + candidates_spec(rest@));
                }
                rest = suffix;
            },
        }
    }
    out
}

/// The error returned when no ancestor suffix of a name matches any backend
/// zone.
#[derive(Debug)]
pub struct ZoneNotFound {
    pub fqdn: String,
}

/// Is `name` one of the zone names in `zones`?
pub open spec fn zone_list_contains(zones: Seq<String>, name: Seq<char>) -> bool {
    exists|i: int| 0 <= i < zones.len() && zones[i]@ == name
}

/// Does the zone list hold this exact name?
fn zone_list_has(zones: &Vec<String>, name: &str) -> (b: bool)
    ensures
        b == zone_list_contains(zones@, name@),
{
    let mut i: usize = 0;
    while i < zones.len()
        invariant
            i <= zones.len(),
            forall|j: int| 0 <= j < i ==> zones@[j]@ != name@,
        decreases zones.len() - i,
    {
        if str_eq(zones[i].as_str(), name) {
            return true;
        }
        i += 1;
    }
    false
}

/// `z` is the `k`-th candidate suffix of `fqdn`, it is a known zone, and no
/// earlier candidate is.
pub open spec fn first_match_at(fqdn: Seq<char>, zones: Seq<String>, z: Seq<char>, k: int) -> bool {
    let cands = candidates_spec(strip_char_end_spec(fqdn, '.'));
    &&& 0 <= k < cands.len()
    &&& cands[k] == z
    &&& zone_list_contains(zones, z)
    &&& (forall|j: int| 0 <= j < k ==> !zone_list_contains(zones, cands[j]))
}

/// `z` is the zone that the longest-suffix walk of `fqdn` finds among
/// `zones`: the first candidate ancestor suffix that is a known zone.
pub open spec fn resolves_to(fqdn: Seq<char>, zones: Seq<String>, z: Seq<char>) -> bool {
    exists|k: int| first_match_at(fqdn, zones, z, k)
}

/// No candidate ancestor suffix of `fqdn` is a known zone.
pub open spec fn no_zone_matches(fqdn: Seq<char>, zones: Seq<String>) -> bool {
    let cands = candidates_spec(strip_char_end_spec(fqdn, '.'));
    forall|k: int| 0 <= k < cands.len() ==> !zone_list_contains(zones, cands[k])
}

/// Resolve the owning zone of `fqdn` among the known zone names: walk the
/// candidate ancestor suffixes outermost-label-first and return the first
/// that is a known zone. Fails with [`ZoneNotFound`] when no candidate
/// matches; the name itself and the root are never tried.
pub fn resolve(fqdn: &str, zones: &Vec<String>) -> (r: Result<String, ZoneNotFound>)
    ensures
        match r {
            Ok(z) => resolves_to(fqdn@, zones@, z@),
            Err(e) => e.fqdn@ == fqdn@ && no_zone_matches(fqdn@, zones@),
        },
{
    let cands = zone_candidates(fqdn);
    let ghost cspec = candidates_spec(strip_char_end_spec(fqdn@, '.'));
    let mut k: usize = 0;
    while k < cands.len()
        invariant
            k <= cands.len(),
            cspec == candidates_spec(strip_char_end_spec(fqdn@, '.')),
            views_of(cands@) == cspec,
            forall|j: int| 0 <= j < k ==> !zone_list_contains(zones@, cspec[j]),
        decreases cands.len() - k,
    {
        if zone_list_has(zones, cands[k].as_str()) {
            let z = cands[k].clone();
            proof {
                assert(cspec.len() == cands@.len()) by {
                    assert(views_of(cands@).len() == cands@.len());
                }
                assert(cspec[k as int] == cands@[k as int]@);
                assert(cspec[k as int] == z@);
                assert(zone_list_contains(zones@, z@));
                assert(first_match_at(fqdn@, zones@, z@, k as int)) by {
                    assert forall|j: int| 0 <= j < k as int implies !zone_list_contains(
                        zones@,
                        candidates_spec(strip_char_end_spec(fqdn@, '.'))[j],
                    ) by {
                        assert(cspec[j] == candidates_spec(strip_char_end_spec(fqdn@, '.'))[j]);
                    }
                }
                assert(resolves_to(fqdn@, zones@, z@));
            }
            return Ok(z);
        }
        proof {
            assert(cspec[k as int] == cands@[k as int]@);
        }
        k += 1;
    }
    Err(ZoneNotFound { fqdn: String::from_str(fqdn) })
}

/// No candidate zone is ever the DNS root, nor the dot-terminated name
/// itself: every candidate of a name without trailing dots is at least two
/// characters long and no longer than the name.
pub proof fn lemma_candidates_proper(s: Seq<char>)
    requires
        s.len() == 0 || s.last() != '.',
    ensures
        forall|k: int|
            0 <= k < candidates_spec(s).len() ==> (2 <= candidates_spec(s)[k].len()
                && candidates_spec(s)[k].len() <= s.len()),
    decreases s.len(),
{
    lemma_find_char(s, '.');
    match find_char_spec(s, '.') {
        None => {},
        Some(i) => {
            let rest = s.skip(i + 1);
            assert(i < s.len() - 1) by {
                if i == s.len() - 1 {
                    assert(s.last() == '.');
                }
            }
            assert(rest.len() >= 1);
            assert(rest.last() == s.last());
            lemma_candidates_proper(rest);
            let c0 = rest.push('.');
            let tail = candidates_spec(rest);
            assert(candidates_spec(s) == seq![c0] + tail);
            assert forall|k: int|
                0 <= k < candidates_spec(s).len() implies (2 <= candidates_spec(s)[k].len()
                && candidates_spec(s)[k].len() <= s.len()) by {
                if k == 0 {
                    assert(candidates_spec(s)[0] == c0);
                    assert(c0.len() == rest.len() + 1);
                } else {
                    assert(candidates_spec(s)[k] == tail[k - 1]);
                    assert(rest.len() < s.len());
                }
            }
        },
    }
}

// ─── endpoint catalog (read path) ────────────────────────────────────────────

/// The record types this provider manages on the read path.
pub open spec fn is_managed_type(rt: Seq<char>) -> bool {
    rt == "A"@ || rt == "AAAA"@ || rt == "CNAME"@ || rt == "TXT"@ || rt == "HTTPS"@
}

/// Executable counterpart of [`is_managed_type`].
pub fn managed_type(rt: &str) -> (b: bool)
    ensures
        b == is_managed_type(rt@),
{
    str_eq(rt, "A") || str_eq(rt, "AAAA") || str_eq(rt, "CNAME") || str_eq(rt, "TXT") || str_eq(
        rt,
        "HTTPS",
    )
}

/// Does the (dot-stripped) name pass the domain filter? An empty filter
/// passes everything; otherwise some filter entry must end the name. This is
/// plain string-suffix containment, not label-aware.
pub open spec fn passes_domain_filter(name: Seq<char>, filter: Seq<String>) -> bool {
    filter.len() == 0 || exists|i: int|
        0 <= i < filter.len() && is_suffix_spec(filter[i]@, name)
}

/// Executable counterpart of [`passes_domain_filter`].
pub fn passes_filter(name: &str, filter: &Vec<String>) -> (b: bool)
    ensures
        b == passes_domain_filter(name@, filter@),
{
    if filter.len() == 0 {
        return true;
    }
    let mut i: usize = 0;
    while i < filter.len()
        invariant
            i <= filter.len(),
            forall|j: int| 0 <= j < i ==> !is_suffix_spec(filter@[j]@, name@),
        decreases filter.len() - i,
    {
        if str_ends_with(name, filter[i].as_str()) {
            return true;
        }
        i += 1;
    }
    false
}

/// Does the catalog surface this RRset? It must be of a managed type, its
/// dot-stripped name must pass the filter, and at least one record must be
/// enabled.
pub open spec fn rrset_included(rs: RrSet, filter: Seq<String>) -> bool {
    &&& is_managed_type(rs.rrtype@)
    &&& passes_domain_filter(strip_char_end_spec(rs.name@, '.'), filter)
    &&& enabled_contents(rs.records@).len() > 0
}

/// The RRsets of one zone that the catalog surfaces, in order.
pub open spec fn included_rrsets(rrsets: Seq<RrSet>, filter: Seq<String>) -> Seq<RrSet>
    decreases rrsets.len(),
{
    if rrsets.len() == 0 {
        Seq::empty()
    } else {
        let rest = included_rrsets(rrsets.drop_last(), filter);
        if rrset_included(rrsets.last(), filter) {
            rest.push(rrsets.last())
        } else {
            rest
        }
    }
}

/// The RRsets of all zones that the catalog surfaces, zone by zone.
pub open spec fn zones_included_rrsets(zones: Seq<Zone>, filter: Seq<String>) -> Seq<RrSet>
    decreases zones.len(),
{
    if zones.len() == 0 {
        Seq::empty()
    } else {
        zones_included_rrsets(zones.drop_last(), filter) + included_rrsets(
            zones.last().rrsets@,
            filter,
        )
    }
}

/// Reconstruct the managed endpoints from the fetched zones, restricted to
/// the domain filter: one endpoint per surfaced RRset, in zone order.
pub fn list_endpoints(zones: &Vec<Zone>, domain_filter: &Vec<String>) -> (eps: Vec<Endpoint>)
    ensures
        eps@.len() == zones_included_rrsets(zones@, domain_filter@).len(),
        forall|i: int|
            0 <= i < eps@.len() ==> endpoint_of_rrset(
                eps@[i],
                zones_included_rrsets(zones@, domain_filter@)[i],
            ),
{
    let mut eps: Vec<Endpoint> = Vec::new();
    let mut zi: usize = 0;
    while zi < zones.len()
        invariant
            zi <= zones.len(),
            eps@.len() == zones_included_rrsets(zones@.take(zi as int), domain_filter@).len(),
            forall|i: int|
                0 <= i < eps@.len() ==> endpoint_of_rrset(
                    eps@[i],
                    zones_included_rrsets(zones@.take(zi as int), domain_filter@)[i],
                ),
        decreases zones.len() - zi,
    {
        let zone = &zones[zi];
        let ghost base = zones_included_rrsets(zones@.take(zi as int), domain_filter@);
        let mut ri: usize = 0;
        while ri < zone.rrsets.len()
            invariant
                ri <= zone.rrsets.len(),
                zone == &zones@[zi as int],
                zi < zones@.len(),
                base == zones_included_rrsets(zones@.take(zi as int), domain_filter@),
                eps@.len() == base.len() + included_rrsets(
                    zone.rrsets@.take(ri as int),
                    domain_filter@,
                ).len(),
                forall|i: int|
                    0 <= i < eps@.len() ==> endpoint_of_rrset(
                        eps@[i],
                        (base + included_rrsets(zone.rrsets@.take(ri as int), domain_filter@))[i],
                    ),
            decreases zone.rrsets.len() - ri,
        {
            let rs = &zone.rrsets[ri];
            let ghost pre = zone.rrsets@.take(ri as int);
            let ghost post = zone.rrsets@.take(ri as int + 1);
            proof {
                assert(post.drop_last() =~= pre);
                assert(post.last() == zone.rrsets@[ri as int]);
            }
            let name = strip_char_end(rs.name.as_str(), '.');
            if managed_type(rs.rrtype.as_str()) && passes_filter(name, domain_filter) {
                match to_endpoint(rs) {
                    Some(ep) => {
                        eps.push(ep);
                        proof {
                            assert(rrset_included(zone.rrsets@[ri as int], domain_filter@));
                            assert(included_rrsets(post, domain_filter@) =~= included_rrsets(
                                pre,
                                domain_filter@,
                            ).push(zone.rrsets@[ri as int]));
                        }
                    },
                    None => {
                        proof {
                            assert(!rrset_included(zone.rrsets@[ri as int], domain_filter@));
                            assert(included_rrsets(post, domain_filter@) =~= included_rrsets(
                                pre,
                                domain_filter@,
                            ));
                        }
                    },
                }
            } else {
                proof {
                    assert(!rrset_included(zone.rrsets@[ri as int], domain_filter@));
                    assert(included_rrsets(post, domain_filter@) =~= included_rrsets(
                        pre,
                        domain_filter@,
                    ));
                }
            }
            ri += 1;
        }
        proof {
            let zpre = zones@.take(zi as int);
            let zpost = zones@.take(zi as int + 1);
            assert(zpost.drop_last() =~= zpre);
            assert(zpost.last() == zones@[zi as int]);
            assert(zone.rrsets@.take(zone.rrsets@.len() as int) =~= zone.rrsets@);
            assert(zones_included_rrsets(zpost, domain_filter@) == zones_included_rrsets(
                zpre,
                domain_filter@,
            ) + included_rrsets(zones@[zi as int].rrsets@, domain_filter@));
        }
        zi += 1;
    }
    proof {
        assert(zones@.take(zones@.len() as int) =~= zones@);
    }
    eps
}

// ─── laws ────────────────────────────────────────────────────────────────────

/// When every record is enabled, the enabled contents are exactly the record
/// contents, in order.
pub proof fn lemma_enabled_all(rs: Seq<Record>)
    requires
        forall|i: int| 0 <= i < rs.len() ==> !rs[i].disabled,
    ensures
        enabled_contents(rs) == rs.map_values(|r: Record| r.content@),
    decreases rs.len(),
{
    if rs.len() > 0 {
        lemma_enabled_all(rs.drop_last());
        assert(enabled_contents(rs) =~= rs.map_values(|r: Record| r.content@));
    }
}

/// Qualifying a name that has no trailing dot and then stripping trailing
/// dots gives the name back unchanged.
pub proof fn lemma_strip_fqdn(s: Seq<char>)
    requires
        !ends_with_dot(s),
    ensures
        strip_char_end_spec(ensure_fqdn_spec(s), '.') == s,
{
    let f = s.push('.');
    assert(ensure_fqdn_spec(s) == f);
    assert(f.last() == '.');
    assert(f.drop_last() =~= s);
    assert(strip_char_end_spec(f, '.') == strip_char_end_spec(s, '.'));
    assert(strip_char_end_spec(s, '.') == s);
}

/// Round trip: converting an endpoint to a replacement RRset and reading it
/// back reproduces the endpoint's name (exactly, when it carried no trailing
/// dot), its type, its TTL (with the default substituted for 0), and its
/// targets up to the per-type normalization.
pub proof fn lemma_round_trip(ep: Endpoint, rs: RrSet, back: Endpoint, default_ttl: u32)
    requires
        rrset_matches_endpoint(rs, ep, default_ttl, "REPLACE"@),
        endpoint_of_rrset(back, rs),
    ensures
        back.dns_name@ == strip_char_end_spec(ensure_fqdn_spec(ep.dns_name@), '.'),
        !ends_with_dot(ep.dns_name@) ==> back.dns_name@ == ep.dns_name@,
        back.record_type@ == ep.record_type@,
        views_of(back.targets@) == views_of(ep.targets@).map_values(
            |t: Seq<char>| normalise_target_spec(ep.record_type@, t),
        ),
        back.record_ttl == (if ep.record_ttl > 0 {
            ep.record_ttl
        } else {
            default_ttl
        }),
{
    lemma_enabled_all(rs.records@);
    assert(views_of(back.targets@) =~= views_of(ep.targets@).map_values(
        |t: Seq<char>| normalise_target_spec(ep.record_type@, t),
    ));
    if !ends_with_dot(ep.dns_name@) {
        lemma_strip_fqdn(ep.dns_name@);
    }
}

/// A replacement RRset built from an endpoint with at least one target is
/// always read back as an endpoint: none of its records is disabled.
pub proof fn lemma_replace_rrset_surfaces(ep: Endpoint, rs: RrSet, default_ttl: u32)
    requires
        rrset_matches_endpoint(rs, ep, default_ttl, "REPLACE"@),
        ep.targets@.len() > 0,
    ensures
        enabled_contents(rs.records@).len() > 0,
{
    lemma_enabled_all(rs.records@);
}

} // verus!
