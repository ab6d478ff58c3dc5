//! The webhook protocol's data model: endpoints, changesets, and the
//! domain-filter negotiation payload.

use vstd::prelude::*;

verus! {

/// The character sequences of a list of strings.
pub open spec fn views_of(v: Seq<String>) -> Seq<Seq<char>> {
    v.map_values(|s: String| s@)
}

/// A provider-specific property attached to an endpoint: an out-of-band
/// name/value directive.
pub struct ProviderSpecific {
    pub name: String,
    pub value: String,
}

/// One DNS endpoint as the webhook protocol understands it: a desired-state
/// record with a name, a type, its target values and a TTL (0 meaning
/// "unspecified, use the default").
pub struct Endpoint {
    pub dns_name: String,
    pub record_type: String,
    pub targets: Vec<String>,
    pub record_ttl: u32,
    pub labels: Vec<(String, String)>,
    pub provider_specific: Vec<ProviderSpecific>,
    pub set_identifier: String,
}

impl Default for Endpoint {
    /// An endpoint with every field empty and a zero TTL.
    fn default() -> (d: Endpoint)
        ensures
            d.dns_name@ == Seq::<char>::empty(),
            d.record_type@ == Seq::<char>::empty(),
            d.targets@.len() == 0,
            d.record_ttl == 0,
            d.labels@.len() == 0,
            d.provider_specific@.len() == 0,
            d.set_identifier@ == Seq::<char>::empty(),
    {
        Endpoint {
            dns_name: String::new(),
            record_type: String::new(),
            targets: Vec::new(),
            record_ttl: 0,
            labels: Vec::new(),
            provider_specific: Vec::new(),
            set_identifier: String::new(),
        }
    }
}

/// The batch-change payload: four ordered endpoint lists, applied in the
/// fixed order delete, update-old, update-new, create.
pub struct Changes {
    pub create: Vec<Endpoint>,
    pub update_old: Vec<Endpoint>,
    pub update_new: Vec<Endpoint>,
    pub delete: Vec<Endpoint>,
}

/// The domain-filter negotiation payload: the configured allow-list, and a
/// deny-list that is always empty.
pub struct DomainFilter {
    pub allowed: Vec<String>,
    pub excluded: Vec<String>,
}

} // verus!
