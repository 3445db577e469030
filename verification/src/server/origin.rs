//! Where a sync came from: the address of the client, and the place that a
//! location database gives for it.

use vstd::prelude::*;
use vstd::string::*;

use crate::server::model::{GeoResult, GeoView};
use crate::text::{before_first, clone_text, first_segment, same_text, text_of, trim, trimmed};

verus! {

/// What a location database holds of an address, as plain values: the ISO
/// code of the country, the ISO codes of the subdivisions from the largest
/// down, and the names of the city by language.
#[derive(Clone, Debug)]
pub struct CityRecord {
    pub country_iso: Option<String>,
    pub subdivision_isos: Vec<Option<String>>,
    pub city_names: Vec<(String, String)>,
}

/// The address that a forwarding header names as the client: the first of
/// its comma-separated entries, without white space around it.
pub open spec fn forwarded_address(header: Seq<char>) -> Seq<char> {
    trimmed(before_first(header, ','))
}

/// The name under `language`: that of the first entry in that language.
pub open spec fn name_in(names: Seq<(String, String)>, language: Seq<char>) -> Option<Seq<char>>
    decreases names.len(),
{
    if names.len() == 0 {
        None
    } else if names.first().0@ == language {
        Some(names.first().1@)
    } else {
        name_in(names.drop_first(), language)
    }
}

/// The location that is kept of a record: the country's code, the code of
/// the first subdivision, and the city's English name.
pub open spec fn located(record: CityRecord) -> GeoView {
    GeoView {
        country: text_of(record.country_iso),
        region: if record.subdivision_isos@.len() > 0 {
            text_of(record.subdivision_isos@[0])
        } else {
            None
        },
        city: name_in(record.city_names@, "en"@),
    }
}

/// The address that a forwarding header names as the client.
pub fn forwarded_client(header: &str) -> (address: &str)
    ensures
        address@ == forwarded_address(header@),
{
    trim(first_segment(header, ','))
}

/// The address to try before the peer's own: the one that the forwarding
/// header names, where the service is told to believe a proxy and the
/// request has such a header.
pub fn forwarded_candidate<'a>(trust_proxy: bool, header: Option<&'a str>) -> (candidate: Option<
    &'a str,
>)
    ensures
        match candidate {
            Some(c) => trust_proxy && (header matches Some(h) && c@ == forwarded_address(h@)),
            None => !trust_proxy || header is None,
        },
{
    if trust_proxy {
        match header {
            Some(h) => Some(forwarded_client(h)),
            None => None,
        }
    } else {
        None
    }
}

/// The address of the client: the forwarded one where there is one and it
/// is an address, else the peer's.
pub fn extract_ip(forwarded: Option<String>, peer: String) -> (ip: Option<String>)
    ensures
        ip == Some(
            match forwarded {
                Some(address) => address,
                None => peer,
            },
        ),
{
    match forwarded {
        Some(address) => Some(address),
        None => Some(peer),
    }
}

/// The name under `language` among `names`.
pub fn find_name(names: &Vec<(String, String)>, language: &str) -> (name: Option<String>)
    ensures
        text_of(name) == name_in(names@, language@),
{
    let mut i: usize = 0;
    assert(names@.skip(0) =~= names@);
    while i < names.len()
        invariant
            i <= names@.len(),
            name_in(names@, language@) == name_in(names@.skip(i as int), language@),
        decreases names@.len() - i,
    {
        assert(names@.skip(i as int).drop_first() =~= names@.skip(i + 1));
        if same_text(names[i].0.as_str(), language) {
            return Some(names[i].1.clone());
        }
        i += 1;
    }
    None
}

/// The location of an address: nothing where the database is absent or has
/// no record of it, else what is kept of the record.
pub fn lookup_geo(record: Option<&CityRecord>) -> (geo: Option<GeoResult>)
    ensures
        match record {
            Some(r) => geo matches Some(g) && g@ == located(*r),
            None => geo is None,
        },
{
    match record {
        Some(r) => {
            let region = if r.subdivision_isos.len() > 0 {
                clone_text(&r.subdivision_isos[0])
            } else {
                None
            };
            Some(
                GeoResult {
                    country: clone_text(&r.country_iso),
                    region,
                    city: find_name(&r.city_names, "en"),
                },
            )
        },
        None => None,
    }
}

/// Whether a setting switches something on: only the text `true` does.
pub fn flag_is_set(value: Option<&str>) -> (set: bool)
    ensures
        set == (value matches Some(v) && v@ == "true"@),
{
    match value {
        Some(v) => same_text(v, "true"),
        None => false,
    }
}

} // verus!
