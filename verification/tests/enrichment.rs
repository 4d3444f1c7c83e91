use ipenrich::geoip::geoip_rows;
use ipenrich::maxmind::MaxMindDB;
use ipenrich::spur::spur_rows;
use ipenrich::spurdb::SpurDB;

// ---- a minimal in-memory lookup database image ----
//
// The binary layout is the documented one: a search tree of 24-bit records,
// a 16-byte separator, a data section, the metadata marker, and a metadata
// map. IPv4-only trees walk 32 bits from the root.

enum Val {
    U16(u16),
    U32(u32),
    U64(u64),
    F64(f64),
    Str(String),
    Arr(Vec<Val>),
    Table(Vec<(String, Val)>),
}

fn be_min(n: u64) -> Vec<u8> {
    if n == 0 {
        return Vec::new();
    }
    let b = n.to_be_bytes();
    let i = b.iter().position(|x| *x != 0).unwrap();
    b[i..].to_vec()
}

fn enc_val(v: &Val, out: &mut Vec<u8>) {
    match v {
        Val::U16(n) => {
            let b = be_min(*n as u64);
            out.push((5 << 5) | b.len() as u8);
            out.extend_from_slice(&b);
        },
        Val::U32(n) => {
            let b = be_min(*n as u64);
            out.push((6 << 5) | b.len() as u8);
            out.extend_from_slice(&b);
        },
        Val::U64(n) => {
            let b = be_min(*n);
            out.push(b.len() as u8);
            out.push(9 - 7);
            out.extend_from_slice(&b);
        },
        Val::F64(x) => {
            out.push((3 << 5) | 8);
            out.extend_from_slice(&x.to_be_bytes());
        },
        Val::Str(s) => {
            let b = s.as_bytes();
            if b.len() < 29 {
                out.push((2 << 5) | b.len() as u8);
            } else {
                assert!(b.len() < 285);
                out.push((2 << 5) | 29);
                out.push((b.len() - 29) as u8);
            }
            out.extend_from_slice(b);
        },
        Val::Arr(items) => {
            assert!(items.len() < 29);
            out.push(items.len() as u8);
            out.push(11 - 7);
            for it in items {
                enc_val(it, out);
            }
        },
        Val::Table(entries) => {
            assert!(entries.len() < 29);
            out.push((7 << 5) | entries.len() as u8);
            for (k, v2) in entries {
                enc_val(&Val::Str(k.clone()), out);
                enc_val(v2, out);
            }
        },
    }
}

#[derive(Clone, Copy)]
enum Child {
    Empty,
    Node(usize),
    Data(usize),
}

fn insert(nodes: &mut Vec<[Child; 2]>, addr: u32, plen: u8, data_idx: usize) {
    assert!(plen >= 1 && plen <= 32);
    let mut cur = 0usize;
    for i in 0..plen {
        let bit = ((addr >> (31 - i)) & 1) as usize;
        if i == plen - 1 {
            nodes[cur][bit] = Child::Data(data_idx);
        } else {
            match nodes[cur][bit] {
                Child::Node(n) => cur = n,
                _ => {
                    nodes.push([Child::Empty, Child::Empty]);
                    let n = nodes.len() - 1;
                    nodes[cur][bit] = Child::Node(n);
                    cur = n;
                },
            }
        }
    }
}

fn mmdb_image(db_type: &str, entries: &[(u32, u8, Val)]) -> Vec<u8> {
    let mut data: Vec<u8> = Vec::new();
    let mut offsets: Vec<usize> = Vec::new();
    for (_, _, v) in entries {
        offsets.push(data.len());
        enc_val(v, &mut data);
    }
    let mut nodes: Vec<[Child; 2]> = vec![[Child::Empty, Child::Empty]];
    for (i, (a, p, _)) in entries.iter().enumerate() {
        insert(&mut nodes, *a, *p, i);
    }
    let node_count = nodes.len();
    let mut out: Vec<u8> = Vec::new();
    for n in &nodes {
        for side in 0..2 {
            let val: u32 = match n[side] {
                Child::Empty => node_count as u32,
                Child::Node(k) => k as u32,
                Child::Data(di) => (node_count + 16 + offsets[di]) as u32,
            };
            out.extend_from_slice(&val.to_be_bytes()[1..4]);
        }
    }
    out.extend_from_slice(&[0u8; 16]);
    out.extend_from_slice(&data);
    out.extend_from_slice(b"\xab\xcd\xefMaxMind.com");
    let meta = Val::Table(vec![
        ("binary_format_major_version".to_string(), Val::U16(2)),
        ("binary_format_minor_version".to_string(), Val::U16(0)),
        ("build_epoch".to_string(), Val::U64(1700000000)),
        ("database_type".to_string(), Val::Str(db_type.to_string())),
        (
            "description".to_string(),
            Val::Table(vec![("en".to_string(), Val::Str("test data".to_string()))]),
        ),
        ("ip_version".to_string(), Val::U16(4)),
        (
            "languages".to_string(),
            Val::Arr(vec![Val::Str("en".to_string())]),
        ),
        ("node_count".to_string(), Val::U32(node_count as u32)),
        ("record_size".to_string(), Val::U16(24)),
    ]);
    enc_val(&meta, &mut out);
    out
}

fn names_en(s: &str) -> Val {
    Val::Table(vec![("en".to_string(), Val::Str(s.to_string()))])
}

fn asn_image() -> Vec<u8> {
    mmdb_image(
        "GeoLite2-ASN",
        &[(
            0x08080800,
            24,
            Val::Table(vec![
                ("autonomous_system_number".to_string(), Val::U32(15169)),
                (
                    "autonomous_system_organization".to_string(),
                    Val::Str("GOOGLE".to_string()),
                ),
            ]),
        )],
    )
}

fn city_image() -> Vec<u8> {
    mmdb_image(
        "GeoLite2-City",
        &[(
            0x08080800,
            24,
            Val::Table(vec![
                ("city".to_string(), Val::Table(vec![("names".to_string(), names_en("Mountain View"))])),
                (
                    "country".to_string(),
                    Val::Table(vec![
                        ("iso_code".to_string(), Val::Str("US".to_string())),
                        ("names".to_string(), names_en("United States")),
                    ]),
                ),
                (
                    "location".to_string(),
                    Val::Table(vec![
                        ("latitude".to_string(), Val::F64(37.4)),
                        ("longitude".to_string(), Val::F64(-122.1)),
                        ("time_zone".to_string(), Val::Str("America/Chicago".to_string())),
                    ]),
                ),
                (
                    "subdivisions".to_string(),
                    Val::Arr(vec![Val::Table(vec![
                        ("iso_code".to_string(), Val::Str("CA".to_string())),
                        ("names".to_string(), names_en("California")),
                    ])]),
                ),
            ]),
        )],
    )
}

#[test]
fn enrichment_example_rows() {
    let db = MaxMindDB::from_bytes(asn_image(), city_image()).expect("image should open");
    let rows = vec![
        Some("8.8.8.8".to_string()),
        Some("192.168.1.1".to_string()),
        None,
        Some("not-an-ip".to_string()),
    ];
    let out = geoip_rows(&db, &rows);
    assert_eq!(out.len(), 4);

    // row 1: populated from both datasets
    let r0 = out[0].as_ref().expect("a valid address with data yields a record");
    assert_eq!(r0.asnnum, 15169);
    assert_eq!(r0.asnorg, "GOOGLE");
    assert_eq!(r0.city, "Mountain View");
    assert_eq!(r0.country, "United States");
    assert_eq!(r0.country_iso, "US");
    assert_eq!(f64::from_bits(r0.latitude_bits), 37.4);
    assert_eq!(f64::from_bits(r0.longitude_bits), -122.1);
    assert_eq!(r0.subdivision, "California");
    assert_eq!(r0.subdivision_iso, "CA");
    assert_eq!(r0.timezone, "America/Chicago");
    assert_eq!(r0.postalcode, "");
    assert_eq!(r0.continent, "");

    // row 2: a valid address with no match projects to all defaults
    let r1 = out[1].as_ref().expect("a lookup miss is a defaulted record, not a null");
    assert_eq!(r1.asnnum, 0);
    assert_eq!(r1.asnorg, "");
    assert_eq!(r1.city, "");
    assert_eq!(r1.latitude_bits, 0);

    // rows 3 and 4: null input and unparseable input are both null
    assert!(out[2].is_none());
    assert!(out[3].is_none());
}

#[test]
fn direct_lookup_through_the_handles() {
    let db = MaxMindDB::from_bytes(asn_image(), city_image()).expect("image should open");
    let hit = db.iplookup(&ipenrich::ip::IpAddress::V4(0x08080801));
    assert_eq!(hit.asnnum, 15169);
    let miss = db.iplookup(&ipenrich::ip::IpAddress::V4(0x09090909));
    assert_eq!(miss.asnnum, 0);
    assert_eq!(miss.city, "");
    // an IPv6 address against the IPv4-only image is a miss, not an error
    let v6 = db.iplookup(&ipenrich::ip::IpAddress::V6(1));
    assert_eq!(v6.asnnum, 0);
}

#[test]
fn rejects_a_broken_image() {
    assert!(MaxMindDB::from_bytes(vec![1, 2, 3], city_image()).is_none());
    assert!(MaxMindDB::from_bytes(asn_image(), Vec::new()).is_none());
}

fn spur_image() -> Vec<u8> {
    mmdb_image(
        "spur",
        &[
            (
                0x01020300,
                24,
                Val::Table(vec![
                    ("clientCount".to_string(), Val::F64(12.5)),
                    ("infrastructure".to_string(), Val::Str("DATACENTER".to_string())),
                    ("locationCity".to_string(), Val::Str("Ashburn".to_string())),
                    ("locationCountry".to_string(), Val::Str("US".to_string())),
                    ("locationState".to_string(), Val::Str("Virginia".to_string())),
                    (
                        "services".to_string(),
                        Val::Arr(vec![
                            Val::Str("VPN".to_string()),
                            Val::Str("PROXY".to_string()),
                        ]),
                    ),
                    ("tag".to_string(), Val::Str("suspicious".to_string())),
                ]),
            ),
            (
                0x02020200,
                24,
                Val::Table(vec![("tag".to_string(), Val::Str("bare".to_string()))]),
            ),
        ],
    )
}

#[test]
fn spur_rows_with_absent_and_present_lists() {
    let db = SpurDB::from_bytes(spur_image()).expect("image should open");
    let rows = vec![
        Some("1.2.3.4".to_string()),
        Some("2.2.2.2".to_string()),
        Some("9.9.9.9".to_string()),
        None,
        Some("???".to_string()),
    ];
    let out = spur_rows(&db, &rows);

    let r0 = out[0].as_ref().unwrap();
    assert_eq!(f64::from_bits(r0.client_count_bits), 12.5);
    assert_eq!(r0.infrastructure, "DATACENTER");
    assert_eq!(r0.location_city, "Ashburn");
    assert_eq!(r0.location_state, "Virginia");
    assert_eq!(r0.services, Some(vec!["VPN".to_string(), "PROXY".to_string()]));
    assert_eq!(r0.tag, "suspicious");

    // a record without the services field keeps the list absent
    let r1 = out[1].as_ref().unwrap();
    assert_eq!(r1.tag, "bare");
    assert_eq!(r1.services, None);
    assert_eq!(r1.client_count_bits, 0);

    // a miss is a defaulted record with the list absent
    let r2 = out[2].as_ref().unwrap();
    assert_eq!(r2.tag, "");
    assert_eq!(r2.services, None);

    assert!(out[3].is_none());
    assert!(out[4].is_none());
}
