use ipenrich::geoip::asn_label;
use ipenrich::maxmind::{project_geo, MaxmindIPResult};
use ipenrich::record::{
    first_elem, float_bits_or_zero, oget, opt_text, text_list, text_or_empty, u32_or_zero,
    RecordValue,
};
use ipenrich::spurdb::{extract_spur, project_spur, SpurResult};

fn dict(entries: Vec<(&str, RecordValue)>) -> RecordValue {
    RecordValue::Dict(entries.into_iter().map(|(k, v)| (k.to_string(), v)).collect())
}

fn text(s: &str) -> RecordValue {
    RecordValue::Text(s.to_string())
}

fn names_en(s: &str) -> RecordValue {
    dict(vec![("de", text("anders")), ("en", text(s))])
}

fn sample_city() -> RecordValue {
    dict(vec![
        ("city", dict(vec![("names", names_en("Mountain View"))])),
        ("continent", dict(vec![("names", names_en("North America"))])),
        (
            "country",
            dict(vec![("iso_code", text("US")), ("names", names_en("United States"))]),
        ),
        (
            "location",
            dict(vec![
                ("latitude", RecordValue::FloatBits(37.4f64.to_bits())),
                ("longitude", RecordValue::FloatBits((-122.1f64).to_bits())),
                ("time_zone", text("America/Los_Angeles")),
            ]),
        ),
        ("postal", dict(vec![("code", text("94035"))])),
        (
            "subdivisions",
            RecordValue::List(vec![dict(vec![
                ("iso_code", text("CA")),
                ("names", names_en("California")),
            ])]),
        ),
    ])
}

fn sample_asn() -> RecordValue {
    dict(vec![
        ("autonomous_system_number", RecordValue::Uint(15169)),
        ("autonomous_system_organization", text("GOOGLE")),
    ])
}

#[test]
fn record_lookup_helpers() {
    let rec = sample_city();
    let loc = oget(Some(&rec), "location");
    assert!(loc.is_some());
    assert_eq!(
        f64::from_bits(float_bits_or_zero(oget(loc, "latitude"))),
        37.4
    );
    assert_eq!(text_or_empty(oget(loc, "time_zone")), "America/Los_Angeles");
    assert_eq!(text_or_empty(oget(loc, "no_such_key")), "");
    assert_eq!(oget(Some(&rec), "nope").is_none(), true);
    assert_eq!(oget(None, "city").is_none(), true);

    let subs = oget(Some(&rec), "subdivisions");
    let first = first_elem(subs);
    assert_eq!(text_or_empty(oget(first, "iso_code")), "CA");

    // first entry wins among duplicate keys
    let dup = dict(vec![("k", text("first")), ("k", text("second"))]);
    assert_eq!(text_or_empty(oget(Some(&dup), "k")), "first");

    // numbers above the 32-bit range fall back to zero
    let big = dict(vec![("n", RecordValue::Uint(u64::MAX))]);
    assert_eq!(u32_or_zero(oget(Some(&big), "n")), 0);
    let ok = dict(vec![("n", RecordValue::Uint(7))]);
    assert_eq!(u32_or_zero(oget(Some(&ok), "n")), 7);

    // typed extraction keeps absence visible
    assert_eq!(opt_text(oget(Some(&ok), "n")), None);
    assert_eq!(opt_text(oget(Some(&dup), "k")), Some("first".to_string()));
}

#[test]
fn geo_projection_populates_every_field() {
    let asn = sample_asn();
    let city = sample_city();
    let r = project_geo(Some(&asn), Some(&city));
    assert_eq!(r.asnnum, 15169);
    assert_eq!(r.asnorg, "GOOGLE");
    assert_eq!(r.city, "Mountain View");
    assert_eq!(r.continent, "North America");
    assert_eq!(r.country, "United States");
    assert_eq!(r.country_iso, "US");
    assert_eq!(f64::from_bits(r.latitude_bits), 37.4);
    assert_eq!(f64::from_bits(r.longitude_bits), -122.1);
    assert_eq!(r.postalcode, "94035");
    assert_eq!(r.subdivision, "California");
    assert_eq!(r.subdivision_iso, "CA");
    assert_eq!(r.timezone, "America/Los_Angeles");
}

#[test]
fn geo_projection_defaults_on_miss() {
    let r = project_geo(None, None);
    let d = MaxmindIPResult::default();
    assert_eq!(r.asnnum, d.asnnum);
    assert_eq!(r.asnorg, d.asnorg);
    assert_eq!(r.city, "");
    assert_eq!(r.continent, "");
    assert_eq!(r.country, "");
    assert_eq!(r.country_iso, "");
    assert_eq!(r.latitude_bits, 0);
    assert_eq!(f64::from_bits(r.latitude_bits), 0.0);
    assert_eq!(r.longitude_bits, 0);
    assert_eq!(r.postalcode, "");
    assert_eq!(r.subdivision, "");
    assert_eq!(r.subdivision_iso, "");
    assert_eq!(r.timezone, "");
}

#[test]
fn geo_projection_defaults_missing_subfields() {
    // a city record without location, postal, or subdivisions, and with a
    // names table missing the working language
    let city = dict(vec![
        ("city", dict(vec![("names", dict(vec![("fr", text("Ville"))]))])),
        ("country", dict(vec![("iso_code", text("FR"))])),
    ]);
    let r = project_geo(None, Some(&city));
    assert_eq!(r.city, "");
    assert_eq!(r.country, "");
    assert_eq!(r.country_iso, "FR");
    assert_eq!(r.latitude_bits, 0);
    assert_eq!(r.timezone, "");
    assert_eq!(r.subdivision, "");

    // an empty subdivisions list is as absent as no list
    let city2 = dict(vec![("subdivisions", RecordValue::List(vec![]))]);
    let r2 = project_geo(None, Some(&city2));
    assert_eq!(r2.subdivision_iso, "");
}

#[test]
fn asn_labels() {
    assert_eq!(asn_label(Some(&sample_asn())), "AS15169 GOOGLE");
    let no_org = dict(vec![("autonomous_system_number", RecordValue::Uint(64512))]);
    assert_eq!(asn_label(Some(&no_org)), "AS64512");
    let empty_org = dict(vec![
        ("autonomous_system_number", RecordValue::Uint(1)),
        ("autonomous_system_organization", text("")),
    ]);
    assert_eq!(asn_label(Some(&empty_org)), "AS1");
    assert_eq!(asn_label(None), "");
    assert_eq!(asn_label(Some(&dict(vec![]))), "AS0");
}

#[test]
fn spur_projection_and_absent_list() {
    let raw = dict(vec![
        ("clientCount", RecordValue::FloatBits(12.5f64.to_bits())),
        ("infrastructure", text("DATACENTER")),
        ("locationCity", text("Ashburn")),
        ("locationCountry", text("US")),
        ("locationState", text("Virginia")),
        ("services", RecordValue::List(vec![text("VPN"), text("PROXY")])),
        ("tag", text("suspicious")),
    ]);
    let r = project_spur(Some(&raw));
    assert_eq!(f64::from_bits(r.client_count_bits), 12.5);
    assert_eq!(r.infrastructure, "DATACENTER");
    assert_eq!(r.location_city, "Ashburn");
    assert_eq!(r.location_country, "US");
    assert_eq!(r.location_state, "Virginia");
    assert_eq!(r.services, Some(vec!["VPN".to_string(), "PROXY".to_string()]));
    assert_eq!(r.tag, "suspicious");

    // a record that carries no services field keeps the list absent,
    // which is distinct from an empty list
    let no_services = dict(vec![("tag", text("t"))]);
    let r2 = project_spur(Some(&no_services));
    assert_eq!(r2.services, None);
    assert_eq!(r2.tag, "t");
    assert_eq!(r2.client_count_bits, 0);
    assert_eq!(r2.infrastructure, "");

    let empty_services = dict(vec![("services", RecordValue::List(vec![]))]);
    let r3 = project_spur(Some(&empty_services));
    assert_eq!(r3.services, Some(vec![]));

    // a lookup miss projects to the all-defaults record
    let miss = project_spur(None);
    let d = SpurResult::default();
    assert_eq!(miss.client_count_bits, d.client_count_bits);
    assert_eq!(miss.services, None);
    assert_eq!(miss.infrastructure, "");

    // the raw extraction keeps every absence visible
    let lr = extract_spur(Some(&no_services));
    assert_eq!(lr.client_count, None);
    assert_eq!(lr.infrastructure, None);
    assert_eq!(lr.services, None);
    assert_eq!(lr.tag, Some("t".to_string()));
}

#[test]
fn text_list_coerces_non_text_entries() {
    let raw = RecordValue::List(vec![text("a"), RecordValue::Uint(3), text("b")]);
    let out = text_list(Some(&raw));
    assert_eq!(
        out,
        Some(vec!["a".to_string(), "".to_string(), "b".to_string()])
    );
    assert_eq!(text_list(Some(&text("not-a-list"))), None);
    assert_eq!(text_list(None), None);
}
