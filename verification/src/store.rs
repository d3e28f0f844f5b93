//! The database handle: MaxMind DB readers, loaded once and only read.
//!
//! A reader is kept behind [`Database`]. What it answers is named by
//! [`city_answers`] and [`asn_answers`], and every call into the reader is a
//! small function here whose contract is stated over those names and is
//! taken on trust: nothing in this crate proves what `maxminddb` does.
//!
//! The reader does not check a database when it opens it. On a damaged one
//! a lookup may panic in the decoder instead of returning. The names leave
//! such lookups out of their domains, and the functions that look an
//! address up ask for it to be in the domain: for an intact database, that
//! is every address.

use crate::address::IpAddress;
use crate::record::{
    CityEntry, CountryEntry, GeoDataView, LocationEntry, Number, PostalEntry, RawAsnRecord,
    RawAsnRecordView, RawCityRecord, RawCityRecordView, SubdivisionEntry, merged,
};
use std::sync::Arc;
use vstd::prelude::*;

verus! {

/// One MaxMind DB held in memory behind a `maxminddb::Reader`. Verified
/// code carries it as an opaque value; only the trusted functions of this
/// module read it.
#[verifier::external_body]
pub struct Database {
    pub reader: Arc<maxminddb::Reader<Vec<u8>>>,
}

impl Clone for Database {
    /// `Arc::clone`, taken on trust: a second handle to the same reader,
    /// which answers as the first does.
    #[verifier::external_body]
    fn clone(&self) -> (r: Self)
        ensures
            r == *self,
    {
        Database { reader: self.reader.clone() }
    }
}

/// `maxminddb::geoip2::City`: a city record as the reader decodes it,
/// opaque to verified code.
#[verifier::external_type_specification]
#[verifier::external_body]
pub struct ExCity<'a>(maxminddb::geoip2::City<'a>);

/// `maxminddb::MaxMindDBError`, opaque to verified code.
#[verifier::external_type_specification]
#[verifier::external_body]
pub struct ExMaxMindDBError(maxminddb::MaxMindDBError);

/// What a database answers when an address is looked up in it as a city
/// record: the record, or the text of the error. The domain holds the
/// addresses whose lookup returns. The answer depends on the bytes of the
/// database and on the address alone.
pub uninterp spec fn city_answers(db: Database) -> Map<
    IpAddress,
    Result<RawCityRecordView, Seq<char>>,
>;

/// What a database answers when an address is looked up in it as an ASN
/// record: the record, or the text of the error. The domain holds the
/// addresses whose lookup returns. The answer depends on the bytes of the
/// database and on the address alone.
pub uninterp spec fn asn_answers(db: Database) -> Map<
    IpAddress,
    Result<RawAsnRecordView, Seq<char>>,
>;

/// What a decoded city record holds of the entities that resolution reads.
pub uninterp spec fn held_by(c: maxminddb::geoip2::City) -> RawCityRecordView;

/// `maxminddb::Reader::lookup` as `geoip2::City`, the error rendered by its
/// `Display`. Taken on trust: the outcome is the database's answer for the
/// address, the decoded record standing for what it holds.
#[verifier::external_body]
pub(crate) fn find_city<'a>(db: &'a Database, ip: IpAddress) -> (r: Result<
    maxminddb::geoip2::City<'a>,
    String,
>)
    requires
        city_answers(*db).contains_key(ip),
    ensures
        city_answers(*db)[ip] == match r {
            Ok(c) => Ok::<RawCityRecordView, Seq<char>>(held_by(c)),
            Err(e) => Err(e@),
        },
{
    let found = match ip {
        IpAddress::V4(a, b, c, d) => db.reader.lookup([a, b, c, d].into()),
        IpAddress::V6(a, b, c, d, e, f, g, h) => db.reader.lookup([a, b, c, d, e, f, g, h].into()),
    };
    found.map_err(|e| e.to_string())
}

/// The field `country` of a decoded city record, with its ISO code, copied
/// out. Taken on trust.
#[verifier::external_body]
pub(crate) fn country_in(c: &maxminddb::geoip2::City) -> (r: Option<CountryEntry>)
    ensures
        held_by(*c).country == match r {
            Some(e) => Some(e@),
            None => None,
        },
{
    c.country.as_ref().map(|x| CountryEntry { iso_code: x.iso_code.map(String::from) })
}

/// The field `city` of a decoded city record, copied out with its names,
/// which the record keeps in the order of their locales. Taken on trust.
#[verifier::external_body]
pub(crate) fn city_in(c: &maxminddb::geoip2::City) -> (r: Option<CityEntry>)
    ensures
        held_by(*c).city == match r {
            Some(e) => Some(e@),
            None => None,
        },
{
    c.city.as_ref().map(|x| CityEntry {
        names: x.names.as_ref().map(|n| n.iter().map(|(k, v)| (k.to_string(), v.to_string())).collect()),
    })
}

/// The field `location` of a decoded city record, copied out, each
/// coordinate by the bits that `to_bits` gives. Taken on trust.
#[verifier::external_body]
pub(crate) fn location_in(c: &maxminddb::geoip2::City) -> (r: Option<LocationEntry>)
    ensures
        held_by(*c).location == match r {
            Some(e) => Some(e@),
            None => None,
        },
{
    c.location.as_ref().map(|x| LocationEntry {
        latitude: x.latitude.map(|v| Number { bits: v.to_bits() }),
        longitude: x.longitude.map(|v| Number { bits: v.to_bits() }),
        time_zone: x.time_zone.map(String::from),
    })
}

/// The field `postal` of a decoded city record, with its code, copied out.
/// Taken on trust.
#[verifier::external_body]
pub(crate) fn postal_in(c: &maxminddb::geoip2::City) -> (r: Option<PostalEntry>)
    ensures
        held_by(*c).postal == match r {
            Some(e) => Some(e@),
            None => None,
        },
{
    c.postal.as_ref().map(|x| PostalEntry { code: x.code.map(String::from) })
}

/// The field `subdivisions` of a decoded city record, copied out in the
/// record's order, each subdivision with its ISO code. Taken on trust.
#[verifier::external_body]
pub(crate) fn subdivisions_in(c: &maxminddb::geoip2::City) -> (r: Option<Vec<SubdivisionEntry>>)
    ensures
        held_by(*c).subdivisions == match r {
            Some(v) => Some(Seq::new(v@.len(), |i: int| v@[i]@)),
            None => None,
        },
{
    c.subdivisions.as_ref().map(|v| {
        v.iter().map(|x| SubdivisionEntry { iso_code: x.iso_code.map(String::from) }).collect()
    })
}

/// `maxminddb::Reader::lookup` as `geoip2::Asn`, the error rendered by its
/// `Display`. Taken on trust: the outcome is the database's answer for the
/// address, the record's two fields copied out.
#[verifier::external_body]
pub(crate) fn find_asn(db: &Database, ip: IpAddress) -> (r: Result<RawAsnRecord, String>)
    requires
        asn_answers(*db).contains_key(ip),
    ensures
        asn_answers(*db)[ip] == match r {
            Ok(a) => Ok::<RawAsnRecordView, Seq<char>>(a@),
            Err(e) => Err(e@),
        },
{
    let found: Result<maxminddb::geoip2::Asn, _> = match ip {
        IpAddress::V4(a, b, c, d) => db.reader.lookup([a, b, c, d].into()),
        IpAddress::V6(a, b, c, d, e, f, g, h) => db.reader.lookup([a, b, c, d, e, f, g, h].into()),
    };
    match found {
        Ok(a) => Ok(RawAsnRecord {
            autonomous_system_number: a.autonomous_system_number,
            autonomous_system_organization: a.autonomous_system_organization.map(String::from),
        }),
        Err(e) => Err(e.to_string()),
    }
}

/// Looks an address up in a city database and hands the record out as plain
/// values.
pub fn lookup_city(db: &Database, ip: IpAddress) -> (r: Result<RawCityRecord, String>)
    requires
        city_answers(*db).contains_key(ip),
    ensures
        city_answers(*db)[ip] == match r {
            Ok(c) => Ok::<RawCityRecordView, Seq<char>>(c@),
            Err(e) => Err(e@),
        },
{
    match find_city(db, ip) {
        Ok(c) => Ok(
            RawCityRecord {
                country: country_in(&c),
                city: city_in(&c),
                location: location_in(&c),
                postal: postal_in(&c),
                subdivisions: subdivisions_in(&c),
            },
        ),
        Err(e) => Err(e),
    }
}

/// Looks an address up in an ASN database.
pub fn lookup_asn(db: &Database, ip: IpAddress) -> (r: Result<RawAsnRecord, String>)
    requires
        asn_answers(*db).contains_key(ip),
    ensures
        asn_answers(*db)[ip] == match r {
            Ok(a) => Ok::<RawAsnRecordView, Seq<char>>(a@),
            Err(e) => Err(e@),
        },
{
    find_asn(db, ip)
}

/// The databases of the service: the city database, and the ASN database
/// where there is one.
#[derive(Clone)]
pub struct Databases {
    pub city: Database,
    pub asn: Option<Database>,
}

/// Why the databases could not be loaded: the city database did not open.
#[derive(Debug)]
pub struct DatabaseLoadError {
    pub source: maxminddb::MaxMindDBError,
}

impl Databases {
    /// Both databases answer the lookup of `ip`.
    pub open spec fn answers(&self, ip: IpAddress) -> bool {
        &&& city_answers(self.city).contains_key(ip)
        &&& self.asn matches Some(a) ==> asn_answers(a).contains_key(ip)
    }

    /// What the ASN database answers for `ip`, where there is one.
    pub open spec fn asn_answer(&self, ip: IpAddress) -> Option<
        Result<RawAsnRecordView, Seq<char>>,
    > {
        match self.asn {
            Some(a) => Some(asn_answers(a)[ip]),
            None => None,
        }
    }

    /// The resolution of `ip`: the merged record where the city database
    /// holds the address, whatever the ASN lookup gives; the city database's
    /// error where it does not.
    pub open spec fn resolution(&self, ip: IpAddress) -> Result<GeoDataView, Seq<char>> {
        match city_answers(self.city)[ip] {
            Ok(record) => Ok(merged(record, self.asn_answer(ip))),
            Err(e) => Err(e),
        }
    }
}

/// Puts the databases together from the outcomes of opening them. The city
/// database is needed: its error is the error of loading. The ASN database
/// is not: where it did not open, the service runs without it.
pub fn load_databases(
    city: Result<Database, maxminddb::MaxMindDBError>,
    asn: Result<Database, maxminddb::MaxMindDBError>,
) -> (r: Result<Databases, DatabaseLoadError>)
    ensures
        match city {
            Ok(c) => r matches Ok(d) && d.city == c && d.asn == match asn {
                Ok(a) => Some(a),
                Err(_) => None,
            },
            Err(e) => r matches Err(x) && x.source == e,
        },
{
    match city {
        Ok(c) => Ok(
            Databases {
                city: c,
                asn: match asn {
                    Ok(a) => Some(a),
                    Err(_) => None,
                },
            },
        ),
        Err(e) => Err(DatabaseLoadError { source: e }),
    }
}

} // verus!
