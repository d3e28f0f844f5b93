//! Resolution of one address, and of the address that a request names or
//! that its proxy headers give.

use crate::address::{IpAddress, ip_of_text, parse_ip};
use crate::record::{GeoData, GeoDataView, Number, merge};
use crate::store::{Databases, lookup_asn, lookup_city};
use crate::text::{chars_of, field_end, find};
use vstd::prelude::*;
use vstd::string::{StrSliceExecFns, StringExecFns};

verus! {

/// An error as it is reported to the caller: its text and, where there is
/// one, its code.
#[derive(Clone, Debug)]
pub struct Error {
    pub error: String,
    pub code: Option<Number>,
}

/// The view of the outcome of a resolution: of the record, or the error's
/// text.
pub open spec fn outcome_view(r: Result<GeoData, String>) -> Result<GeoDataView, Seq<char>> {
    match r {
        Ok(g) => Ok(g@),
        Err(e) => Err(e@),
    }
}

/// The text that reports an identifier which denotes no address.
pub open spec fn invalid_format() -> Seq<char> {
    "Invalid IP format"@
}

impl Databases {
    /// The resolution of the identifier `id`: that of the address it
    /// denotes, or the error that it denotes none.
    pub open spec fn answer(&self, id: Seq<char>) -> Result<GeoDataView, Seq<char>> {
        match ip_of_text(id) {
            Some(ip) => self.resolution(ip),
            None => Err(invalid_format()),
        }
    }

    /// The databases answer the lookup of the address that `id` denotes, if
    /// it denotes one.
    pub open spec fn answers_text(&self, id: Seq<char>) -> bool {
        ip_of_text(id) matches Some(ip) ==> self.answers(ip)
    }
}

/// Resolves an address: looks it up in the city database, then in the ASN
/// database if there is one, and merges what was found. Only the city
/// lookup can fail the resolution.
pub fn lookup_ip(ip: IpAddress, dbs: &Databases) -> (r: Result<GeoData, String>)
    requires
        dbs.answers(ip),
    ensures
        outcome_view(r) == dbs.resolution(ip),
{
    let record = match lookup_city(&dbs.city, ip) {
        Ok(c) => c,
        Err(e) => {
            return Err(e);
        },
    };
    let found = match &dbs.asn {
        Some(asn) => Some(lookup_asn(asn, ip)),
        None => None,
    };
    Ok(merge(record, found))
}

/// Resolves an identifier: parses it as an address and resolves that.
pub fn lookup_text(id: &str, dbs: &Databases) -> (r: Result<GeoData, String>)
    requires
        dbs.answers_text(id@),
    ensures
        outcome_view(r) == dbs.answer(id@),
{
    match parse_ip(id) {
        Some(ip) => lookup_ip(ip, dbs),
        None => Err(String::from_str("Invalid IP format")),
    }
}

/// The first entry of a comma-separated list: what stands before the first
/// comma, or the whole text where there is none.
pub open spec fn first_entry(list: Seq<char>) -> Seq<char> {
    list.take(field_end(list, 0, list.len() as int, ','))
}

/// The address of the client as the proxy headers give it: the real-IP
/// header where it is present, else the first entry of the forwarded-for
/// header, else `Unknown`.
pub open spec fn detected(real_ip: Option<Seq<char>>, forwarded_for: Option<Seq<char>>) -> Seq<
    char,
> {
    match real_ip {
        Some(ip) => ip,
        None => match forwarded_for {
            Some(list) => first_entry(list),
            None => "Unknown"@,
        },
    }
}

/// The characters of an optional string slice.
pub open spec fn slice_text(s: Option<&str>) -> Option<Seq<char>> {
    match s {
        Some(t) => Some(t@),
        None => None,
    }
}

/// Detects the client's address from the values of the two proxy headers.
pub fn get_ip(real_ip: Option<&str>, forwarded_for: Option<&str>) -> (r: String)
    ensures
        r@ == detected(slice_text(real_ip), slice_text(forwarded_for)),
{
    match real_ip {
        Some(ip) => String::from_str(ip),
        None => match forwarded_for {
            Some(list) => {
                let cs = chars_of(list);
                let e = find(&cs, 0, cs.len(), ',');
                String::from_str(list.substring_char(0, e))
            },
            None => String::from_str("Unknown"),
        },
    }
}

/// The identifier that a request asks about: the one it names, else the
/// detected address of the client.
pub open spec fn requested(
    ip_query: Option<Seq<char>>,
    real_ip: Option<Seq<char>>,
    forwarded_for: Option<Seq<char>>,
) -> Seq<char> {
    match ip_query {
        Some(ip) => ip,
        None => detected(real_ip, forwarded_for),
    }
}

/// What a lookup request is answered with.
#[derive(Clone, Debug)]
pub enum LookupReply {
    /// The record of the address.
    Found(GeoData),
    /// The identifier denotes no address.
    Invalid(Error),
    /// The address did not resolve; the text says why.
    Failed(String),
}

/// Answers a lookup request from the address it names, if it names one, and
/// the values of the two proxy headers.
pub fn lookup(
    ip_query: Option<&str>,
    real_ip: Option<&str>,
    forwarded_for: Option<&str>,
    dbs: &Databases,
) -> (r: LookupReply)
    requires
        dbs.answers_text(
            requested(slice_text(ip_query), slice_text(real_ip), slice_text(forwarded_for)),
        ),
    ensures
        match ip_of_text(
            requested(slice_text(ip_query), slice_text(real_ip), slice_text(forwarded_for)),
        ) {
            Some(ip) => match dbs.resolution(ip) {
                Ok(g) => r matches LookupReply::Found(found) && found@ == g,
                Err(e) => r matches LookupReply::Failed(text) && text@ == e,
            },
            None => r matches LookupReply::Invalid(e) && e.error@ == invalid_format()
                && e.code is None,
        },
{
    let self_ip = get_ip(real_ip, forwarded_for);
    let ip = match ip_query {
        Some(ip) => String::from_str(ip),
        None => self_ip,
    };
    match parse_ip(ip.as_str()) {
        Some(parsed) => match lookup_ip(parsed, dbs) {
            Ok(g) => LookupReply::Found(g),
            Err(e) => LookupReply::Failed(e),
        },
        None => LookupReply::Invalid(
            Error { error: String::from_str("Invalid IP format"), code: None },
        ),
    }
}

/// An identifier that denotes no address resolves to the error
/// `Invalid IP format`, whatever the databases hold.
pub proof fn lemma_invalid_identifier(dbs: Databases, id: Seq<char>)
    requires
        ip_of_text(id) is None,
    ensures
        dbs.answer(id) == Err::<GeoDataView, Seq<char>>(invalid_format()),
{
}

/// Without an ASN database a resolution is what it would be with one, but
/// with both ownership fields absent; it fails on the same addresses, with
/// the same error.
pub proof fn lemma_without_asn(with: Databases, without: Databases, ip: IpAddress)
    requires
        with.city == without.city,
        without.asn is None,
    ensures
        match without.resolution(ip) {
            Ok(g) => {
                &&& g.asn is None
                &&& g.organization is None
                &&& with.resolution(ip) matches Ok(h)
                &&& g == (GeoDataView { asn: None, organization: None, ..h })
            },
            Err(e) => with.resolution(ip) == Err::<GeoDataView, Seq<char>>(e),
        },
{
}

} // verus!
