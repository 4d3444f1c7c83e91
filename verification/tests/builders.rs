use ipenrich::geoip::{geoip_full_output, pl_geoip_columns};
use ipenrich::maxmind::MaxmindIPResult;
use ipenrich::spur::{pl_spur_columns, spur_full_output};
use ipenrich::spurdb::SpurResult;
use ipenrich::utils::{create_builders, BuilderWrapper, CellValue, Column, FieldType};

#[test]
fn builders_follow_declared_types() {
    let fields = vec![
        ("n".to_string(), FieldType::UInt32),
        ("x".to_string(), FieldType::Float64),
        ("s".to_string(), FieldType::Text),
        ("f".to_string(), FieldType::Float32),
        ("l".to_string(), FieldType::ListText),
    ];
    let builders = create_builders(&fields, 4);
    assert_eq!(builders.len(), 5);
    assert!(matches!(builders[0], BuilderWrapper::UInt32(_)));
    assert!(matches!(builders[1], BuilderWrapper::Float64(_)));
    assert!(matches!(builders[2], BuilderWrapper::Text(_)));
    assert!(matches!(builders[3], BuilderWrapper::Float32(_)));
    assert!(matches!(builders[4], BuilderWrapper::Invalid(_)));
}

#[test]
fn mismatched_cells_become_nulls() {
    let fields = vec![("n".to_string(), FieldType::UInt32)];
    let mut builders = create_builders(&fields, 3);
    builders[0].append_value(CellValue::UInt32(7));
    builders[0].append_value(CellValue::Text("oops".to_string()));
    builders[0].append_null();
    let col = builders.pop().unwrap().finish();
    match col {
        Column::UInt32(xs) => assert_eq!(xs, vec![Some(7), None, None]),
        _ => panic!("expected a UInt32 column"),
    }
}

#[test]
fn unsupported_fields_collect_only_nulls() {
    let fields = vec![("l".to_string(), FieldType::ListText)];
    let mut builders = create_builders(&fields, 2);
    builders[0].append_value(CellValue::Text("ignored".to_string()));
    builders[0].append_null();
    let col = builders.pop().unwrap().finish();
    match col {
        Column::Nulls(n) => assert_eq!(n, 2),
        _ => panic!("expected an all-null column"),
    }
}

#[test]
fn declared_schemas_are_fixed_and_ordered() {
    let geo = geoip_full_output();
    let names: Vec<&str> = geo.iter().map(|p| p.0.as_str()).collect();
    assert_eq!(
        names,
        vec![
            "asnnum",
            "asnorg",
            "city",
            "continent",
            "country",
            "country_iso",
            "latitude",
            "longitude",
            "postalcode",
            "subdivision",
            "subdivision_iso",
            "timezone",
        ]
    );
    assert!(matches!(geo[0].1, FieldType::UInt32));
    assert!(matches!(geo[6].1, FieldType::Float64));
    assert!(matches!(geo[11].1, FieldType::Text));

    let spur = spur_full_output();
    let names: Vec<&str> = spur.iter().map(|p| p.0.as_str()).collect();
    assert_eq!(
        names,
        vec![
            "client_count",
            "infrastructure",
            "location_city",
            "location_country",
            "location_state",
            "tag",
        ]
    );
}

fn geo_rec(num: u32, city: &str, lat: f64) -> MaxmindIPResult {
    let mut r = MaxmindIPResult::default();
    r.asnnum = num;
    r.city = city.to_string();
    r.latitude_bits = lat.to_bits();
    r
}

#[test]
fn geo_columns_follow_schema_positionally() {
    let recs = vec![
        Some(geo_rec(15169, "Mountain View", 1.5)),
        None,
        Some(geo_rec(0, "", 0.0)),
    ];
    let cols = pl_geoip_columns(&recs);
    assert_eq!(cols.len(), 12);
    match &cols[0] {
        Column::UInt32(xs) => assert_eq!(*xs, vec![Some(15169), None, Some(0)]),
        _ => panic!("expected the asnnum column first"),
    }
    match &cols[2] {
        Column::Text(xs) => assert_eq!(
            *xs,
            vec![Some("Mountain View".to_string()), None, Some("".to_string())]
        ),
        _ => panic!("expected the city column third"),
    }
    match &cols[6] {
        Column::Float64(xs) => {
            assert_eq!(*xs, vec![Some(1.5f64.to_bits()), None, Some(0)]);
        },
        _ => panic!("expected the latitude column seventh"),
    }
}

#[test]
fn spur_columns_and_services_path() {
    let mut a = SpurResult::default();
    a.client_count_bits = 2.5f64.to_bits();
    a.tag = "t".to_string();
    a.services = Some(vec!["VPN".to_string()]);
    let mut b = SpurResult::default();
    b.services = None;
    let recs = vec![Some(a), None, Some(b)];
    let (cols, services) = pl_spur_columns(&recs);
    assert_eq!(cols.len(), 6);
    match &cols[0] {
        Column::Float64(xs) => assert_eq!(*xs, vec![Some(2.5f64.to_bits()), None, Some(0)]),
        _ => panic!("expected the client_count column first"),
    }
    match &cols[5] {
        Column::Text(xs) => assert_eq!(
            *xs,
            vec![Some("t".to_string()), None, Some("".to_string())]
        ),
        _ => panic!("expected the tag column last"),
    }
    assert_eq!(
        services,
        vec![Some(vec!["VPN".to_string()]), None, None]
    );
}
