//! Database records as plain values, the normalized record, and the rules
//! that lead from the one to the other.

use vstd::prelude::*;
use vstd::string::StringExecFns;

verus! {

/// A double-precision number, held by its IEEE 754 bit pattern.
#[derive(Clone, Copy, Debug, PartialEq, Eq, Structural)]
pub struct Number {
    pub bits: u64,
}

/// The country entity of a city record.
#[derive(Clone, Debug)]
pub struct CountryEntry {
    pub iso_code: Option<String>,
}

/// The city entity of a city record: its names by locale, in the order of
/// the locales.
#[derive(Clone, Debug)]
pub struct CityEntry {
    pub names: Option<Vec<(String, String)>>,
}

/// The location entity of a city record.
#[derive(Clone, Debug)]
pub struct LocationEntry {
    pub latitude: Option<Number>,
    pub longitude: Option<Number>,
    pub time_zone: Option<String>,
}

/// The postal entity of a city record.
#[derive(Clone, Debug)]
pub struct PostalEntry {
    pub code: Option<String>,
}

/// One administrative subdivision of a city record.
#[derive(Clone, Debug)]
pub struct SubdivisionEntry {
    pub iso_code: Option<String>,
}

/// What the city database holds for an address, as far as resolution reads it.
#[derive(Clone, Debug)]
pub struct RawCityRecord {
    pub country: Option<CountryEntry>,
    pub city: Option<CityEntry>,
    pub location: Option<LocationEntry>,
    pub postal: Option<PostalEntry>,
    pub subdivisions: Option<Vec<SubdivisionEntry>>,
}

/// What the ASN database holds for an address.
#[derive(Clone, Debug)]
pub struct RawAsnRecord {
    pub autonomous_system_number: Option<u32>,
    pub autonomous_system_organization: Option<String>,
}

/// The normalized record of an address. A field is `None` where the
/// databases do not supply it.
#[derive(Clone, Debug)]
pub struct GeoData {
    pub country: Option<String>,
    pub city: Option<String>,
    pub latitude: Option<Number>,
    pub longitude: Option<Number>,
    pub postal_code: Option<String>,
    pub time_zone: Option<String>,
    pub subdivision: Option<String>,
    pub asn: Option<u32>,
    pub organization: Option<String>,
}

/// The characters of an optional string.
pub open spec fn text_of(s: Option<String>) -> Option<Seq<char>> {
    match s {
        Some(t) => Some(t@),
        None => None,
    }
}

/// The model of a [`CountryEntry`].
pub struct CountryEntryView {
    pub iso_code: Option<Seq<char>>,
}

/// The model of a [`CityEntry`]: its names as pairs of locale and name.
pub struct CityEntryView {
    pub names: Option<Seq<(Seq<char>, Seq<char>)>>,
}

/// The model of a [`LocationEntry`].
pub struct LocationEntryView {
    pub latitude: Option<Number>,
    pub longitude: Option<Number>,
    pub time_zone: Option<Seq<char>>,
}

/// The model of a [`PostalEntry`].
pub struct PostalEntryView {
    pub code: Option<Seq<char>>,
}

/// The model of a [`SubdivisionEntry`].
pub struct SubdivisionEntryView {
    pub iso_code: Option<Seq<char>>,
}

/// The model of a [`RawCityRecord`].
pub struct RawCityRecordView {
    pub country: Option<CountryEntryView>,
    pub city: Option<CityEntryView>,
    pub location: Option<LocationEntryView>,
    pub postal: Option<PostalEntryView>,
    pub subdivisions: Option<Seq<SubdivisionEntryView>>,
}

/// The model of a [`RawAsnRecord`].
pub struct RawAsnRecordView {
    pub autonomous_system_number: Option<u32>,
    pub autonomous_system_organization: Option<Seq<char>>,
}

/// The model of a [`GeoData`]: every text by its characters.
pub struct GeoDataView {
    pub country: Option<Seq<char>>,
    pub city: Option<Seq<char>>,
    pub latitude: Option<Number>,
    pub longitude: Option<Number>,
    pub postal_code: Option<Seq<char>>,
    pub time_zone: Option<Seq<char>>,
    pub subdivision: Option<Seq<char>>,
    pub asn: Option<u32>,
    pub organization: Option<Seq<char>>,
}

impl View for CountryEntry {
    type V = CountryEntryView;

    open spec fn view(&self) -> CountryEntryView {
        CountryEntryView { iso_code: text_of(self.iso_code) }
    }
}

impl View for CityEntry {
    type V = CityEntryView;

    open spec fn view(&self) -> CityEntryView {
        CityEntryView {
            names: match self.names {
                Some(n) => Some(Seq::new(n@.len(), |i: int| (n@[i].0@, n@[i].1@))),
                None => None,
            },
        }
    }
}

impl View for LocationEntry {
    type V = LocationEntryView;

    open spec fn view(&self) -> LocationEntryView {
        LocationEntryView {
            latitude: self.latitude,
            longitude: self.longitude,
            time_zone: text_of(self.time_zone),
        }
    }
}

impl View for PostalEntry {
    type V = PostalEntryView;

    open spec fn view(&self) -> PostalEntryView {
        PostalEntryView { code: text_of(self.code) }
    }
}

impl View for SubdivisionEntry {
    type V = SubdivisionEntryView;

    open spec fn view(&self) -> SubdivisionEntryView {
        SubdivisionEntryView { iso_code: text_of(self.iso_code) }
    }
}

impl View for RawCityRecord {
    type V = RawCityRecordView;

    open spec fn view(&self) -> RawCityRecordView {
        RawCityRecordView {
            country: match self.country {
                Some(c) => Some(c@),
                None => None,
            },
            city: match self.city {
                Some(c) => Some(c@),
                None => None,
            },
            location: match self.location {
                Some(l) => Some(l@),
                None => None,
            },
            postal: match self.postal {
                Some(p) => Some(p@),
                None => None,
            },
            subdivisions: match self.subdivisions {
                Some(s) => Some(Seq::new(s@.len(), |i: int| s@[i]@)),
                None => None,
            },
        }
    }
}

impl View for RawAsnRecord {
    type V = RawAsnRecordView;

    open spec fn view(&self) -> RawAsnRecordView {
        RawAsnRecordView {
            autonomous_system_number: self.autonomous_system_number,
            autonomous_system_organization: text_of(self.autonomous_system_organization),
        }
    }
}

impl View for GeoData {
    type V = GeoDataView;

    open spec fn view(&self) -> GeoDataView {
        GeoDataView {
            country: text_of(self.country),
            city: text_of(self.city),
            latitude: self.latitude,
            longitude: self.longitude,
            postal_code: text_of(self.postal_code),
            time_zone: text_of(self.time_zone),
            subdivision: text_of(self.subdivision),
            asn: self.asn,
            organization: text_of(self.organization),
        }
    }
}

/// The name that `names` gives for `locale`, looking from place `from` on.
pub open spec fn name_from(names: Seq<(Seq<char>, Seq<char>)>, locale: Seq<char>, from: int) -> Option<
    Seq<char>,
>
    decreases names.len() - from,
{
    if from < 0 || from >= names.len() {
        None
    } else if names[from].0 == locale {
        Some(names[from].1)
    } else {
        name_from(names, locale, from + 1)
    }
}

/// The locale whose city name a normalized record carries.
pub open spec fn city_locale() -> Seq<char> {
    "en"@
}

/// The geographic fields of the normalized record of a city record. Each
/// field is taken where every step to it is present: the country's ISO code,
/// the city's English name, the location's coordinates and time zone, the
/// postal code, and the ISO code of the first subdivision. The ownership
/// fields are absent.
pub open spec fn geo_of(record: RawCityRecordView) -> GeoDataView {
    GeoDataView {
        country: match record.country {
            Some(c) => c.iso_code,
            None => None,
        },
        city: match record.city {
            Some(CityEntryView { names: Some(n) }) => name_from(n, city_locale(), 0),
            _ => None,
        },
        latitude: match record.location {
            Some(l) => l.latitude,
            None => None,
        },
        longitude: match record.location {
            Some(l) => l.longitude,
            None => None,
        },
        postal_code: match record.postal {
            Some(p) => p.code,
            None => None,
        },
        time_zone: match record.location {
            Some(l) => l.time_zone,
            None => None,
        },
        subdivision: match record.subdivisions {
            Some(s) if s.len() > 0 => s[0].iso_code,
            _ => None,
        },
        asn: None,
        organization: None,
    }
}

/// The ownership fields that an ASN lookup gives: those of the record it
/// found, and none where there was no ASN database or the lookup failed.
pub open spec fn asn_of(found: Option<Result<RawAsnRecordView, Seq<char>>>) -> (Option<u32>, Option<
    Seq<char>,
>) {
    match found {
        Some(Ok(a)) => (a.autonomous_system_number, a.autonomous_system_organization),
        _ => (None, None),
    }
}

/// The normalized record of a city record and an ASN lookup.
pub open spec fn merged(
    record: RawCityRecordView,
    found: Option<Result<RawAsnRecordView, Seq<char>>>,
) -> GeoDataView {
    GeoDataView { asn: asn_of(found).0, organization: asn_of(found).1, ..geo_of(record) }
}

/// The view of the outcome of a lookup: of the record, or the error's text.
pub open spec fn asn_outcome_view(found: Option<Result<RawAsnRecord, String>>) -> Option<
    Result<RawAsnRecordView, Seq<char>>,
> {
    match found {
        Some(Ok(a)) => Some(Ok(a@)),
        Some(Err(e)) => Some(Err(e@)),
        None => None,
    }
}

/// Finds the name that `names` gives for the locale `locale`.
fn find_name(names: &Vec<(String, String)>, locale: &String) -> (r: Option<String>)
    ensures
        text_of(r) == name_from(
            Seq::new(names@.len(), |i: int| (names@[i].0@, names@[i].1@)),
            locale@,
            0,
        ),
{
    let ghost model = Seq::new(names@.len(), |i: int| (names@[i].0@, names@[i].1@));
    let mut i: usize = 0;
    while i < names.len()
        invariant
            i <= names.len(),
            model == Seq::new(names@.len(), |i: int| (names@[i].0@, names@[i].1@)),
            name_from(model, locale@, 0) == name_from(model, locale@, i as int),
        decreases names.len() - i,
    {
        if names[i].0 == *locale {
            return Some(names[i].1.clone());
        }
        i = i + 1;
    }
    None
}

/// Normalizes a city record: extracts the geographic fields.
pub fn extract_geo(record: RawCityRecord) -> (g: GeoData)
    ensures
        g@ == geo_of(record@),
{
    let RawCityRecord { country, city, location, postal, subdivisions } = record;
    let country_code = match country {
        Some(c) => c.iso_code,
        None => None,
    };
    let city_name = match city {
        Some(CityEntry { names: Some(n) }) => {
            let locale = String::from_str("en");
            find_name(&n, &locale)
        },
        _ => None,
    };
    let (latitude, longitude, time_zone) = match location {
        Some(l) => (l.latitude, l.longitude, l.time_zone),
        None => (None, None, None),
    };
    let postal_code = match postal {
        Some(p) => p.code,
        None => None,
    };
    let subdivision = match subdivisions {
        Some(s) => {
            if s.len() > 0 {
                match &s[0].iso_code {
                    Some(code) => Some(code.clone()),
                    None => None,
                }
            } else {
                None
            }
        },
        None => None,
    };
    GeoData {
        country: country_code,
        city: city_name,
        latitude,
        longitude,
        postal_code,
        time_zone,
        subdivision,
        asn: None,
        organization: None,
    }
}

/// The ownership fields of an ASN lookup; a lookup that was not made or that
/// failed gives none.
pub fn extract_asn(found: Option<Result<RawAsnRecord, String>>) -> (r: (Option<u32>, Option<String>))
    ensures
        (r.0, text_of(r.1)) == asn_of(asn_outcome_view(found)),
{
    match found {
        Some(Ok(a)) => (a.autonomous_system_number, a.autonomous_system_organization),
        _ => (None, None),
    }
}

/// Merges a city record and the outcome of the ASN lookup into one
/// normalized record.
pub fn merge(record: RawCityRecord, found: Option<Result<RawAsnRecord, String>>) -> (g: GeoData)
    ensures
        g@ == merged(record@, asn_outcome_view(found)),
{
    let mut g = extract_geo(record);
    let (asn, organization) = extract_asn(found);
    g.asn = asn;
    g.organization = organization;
    g
}

} // verus!
