use geoip_resolver::record::{
    extract_asn, extract_geo, merge, CityEntry, CountryEntry, LocationEntry, Number, PostalEntry,
    RawAsnRecord, RawCityRecord, SubdivisionEntry,
};

fn text(s: &str) -> Option<String> {
    Some(s.to_string())
}

fn degrees(x: f64) -> Option<Number> {
    Some(Number { bits: x.to_bits() })
}

fn empty_record() -> RawCityRecord {
    RawCityRecord { country: None, city: None, location: None, postal: None, subdivisions: None }
}

fn full_record() -> RawCityRecord {
    RawCityRecord {
        country: Some(CountryEntry { iso_code: text("US") }),
        city: Some(CityEntry {
            names: Some(vec![
                ("de".to_string(), "Bergblick".to_string()),
                ("en".to_string(), "Mountain View".to_string()),
                ("fr".to_string(), "Vue de la montagne".to_string()),
            ]),
        }),
        location: Some(LocationEntry {
            latitude: degrees(37.386),
            longitude: degrees(-122.0838),
            time_zone: text("America/Los_Angeles"),
        }),
        postal: Some(PostalEntry { code: text("94035") }),
        subdivisions: Some(vec![
            SubdivisionEntry { iso_code: text("CA") },
            SubdivisionEntry { iso_code: text("ZZ") },
        ]),
    }
}

#[test]
fn every_field_is_extracted() {
    let g = extract_geo(full_record());
    assert_eq!(g.country.as_deref(), Some("US"));
    assert_eq!(g.city.as_deref(), Some("Mountain View"));
    assert_eq!(g.latitude, degrees(37.386));
    assert_eq!(g.longitude, degrees(-122.0838));
    assert_eq!(g.postal_code.as_deref(), Some("94035"));
    assert_eq!(g.time_zone.as_deref(), Some("America/Los_Angeles"));
    assert_eq!(g.subdivision.as_deref(), Some("CA"));
    assert_eq!(g.asn, None);
    assert_eq!(g.organization, None);
}

#[test]
fn empty_record_gives_no_field() {
    let g = extract_geo(empty_record());
    assert!(g.country.is_none() && g.city.is_none() && g.latitude.is_none());
    assert!(g.longitude.is_none() && g.postal_code.is_none() && g.time_zone.is_none());
    assert!(g.subdivision.is_none() && g.asn.is_none() && g.organization.is_none());
}

#[test]
fn absent_inner_values_give_no_field() {
    let g = extract_geo(RawCityRecord {
        country: Some(CountryEntry { iso_code: None }),
        city: Some(CityEntry { names: None }),
        location: Some(LocationEntry { latitude: None, longitude: degrees(2.5), time_zone: None }),
        postal: Some(PostalEntry { code: None }),
        subdivisions: Some(vec![]),
    });
    assert!(g.country.is_none() && g.city.is_none() && g.latitude.is_none());
    assert_eq!(g.longitude, degrees(2.5));
    assert!(g.postal_code.is_none() && g.time_zone.is_none() && g.subdivision.is_none());
}

#[test]
fn city_name_is_the_english_one_only() {
    let mut r = empty_record();
    r.city = Some(CityEntry {
        names: Some(vec![
            ("de".to_string(), "Köln".to_string()),
            ("fr".to_string(), "Cologne".to_string()),
        ]),
    });
    assert_eq!(extract_geo(r).city, None);
    let mut r = empty_record();
    r.city = Some(CityEntry { names: Some(vec![]) });
    assert_eq!(extract_geo(r).city, None);
    let mut r = empty_record();
    r.city = Some(CityEntry {
        names: Some(vec![
            ("EN".to_string(), "Upper".to_string()),
            ("en-GB".to_string(), "British".to_string()),
            ("en".to_string(), "Cologne".to_string()),
        ]),
    });
    assert_eq!(extract_geo(r).city.as_deref(), Some("Cologne"));
}

#[test]
fn subdivision_is_the_first_listed_only() {
    let mut r = empty_record();
    r.subdivisions = Some(vec![
        SubdivisionEntry { iso_code: None },
        SubdivisionEntry { iso_code: text("CA") },
    ]);
    assert_eq!(extract_geo(r).subdivision, None);
    let mut r = empty_record();
    r.subdivisions = Some(vec![
        SubdivisionEntry { iso_code: text("ENG") },
        SubdivisionEntry { iso_code: text("WBK") },
    ]);
    assert_eq!(extract_geo(r).subdivision.as_deref(), Some("ENG"));
}

#[test]
fn asn_fields_pass_through() {
    let found = Some(Ok(RawAsnRecord {
        autonomous_system_number: Some(15169),
        autonomous_system_organization: text("GOOGLE"),
    }));
    assert_eq!(extract_asn(found), (Some(15169), text("GOOGLE")));
    let found = Some(Ok(RawAsnRecord {
        autonomous_system_number: None,
        autonomous_system_organization: text("GOOGLE"),
    }));
    assert_eq!(extract_asn(found), (None, text("GOOGLE")));
    let found = Some(Ok(RawAsnRecord {
        autonomous_system_number: Some(4294967295),
        autonomous_system_organization: None,
    }));
    assert_eq!(extract_asn(found), (Some(4294967295), None));
}

#[test]
fn failed_or_absent_asn_lookup_gives_no_field() {
    assert_eq!(extract_asn(None), (None, None));
    assert_eq!(extract_asn(Some(Err("AddressNotFoundError: x".to_string()))), (None, None));
}

#[test]
fn merge_joins_both_records() {
    let found = Some(Ok(RawAsnRecord {
        autonomous_system_number: Some(15169),
        autonomous_system_organization: text("GOOGLE"),
    }));
    let g = merge(full_record(), found);
    assert_eq!(g.country.as_deref(), Some("US"));
    assert_eq!(g.city.as_deref(), Some("Mountain View"));
    assert_eq!(g.subdivision.as_deref(), Some("CA"));
    assert_eq!(g.asn, Some(15169));
    assert_eq!(g.organization.as_deref(), Some("GOOGLE"));
}

#[test]
fn merge_without_asn_leaves_other_fields() {
    let with_failure = merge(full_record(), Some(Err("miss".to_string())));
    let without = merge(full_record(), None);
    let plain = extract_geo(full_record());
    for g in [&with_failure, &without] {
        assert_eq!(g.asn, None);
        assert_eq!(g.organization, None);
        assert_eq!(g.country, plain.country);
        assert_eq!(g.city, plain.city);
        assert_eq!(g.latitude, plain.latitude);
        assert_eq!(g.longitude, plain.longitude);
        assert_eq!(g.postal_code, plain.postal_code);
        assert_eq!(g.time_zone, plain.time_zone);
        assert_eq!(g.subdivision, plain.subdivision);
    }
}
