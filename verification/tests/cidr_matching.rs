use ipenrich::iptools::{parse_cidr_bytes, pl_is_in, CidrRange, CidrSet};

fn col(items: &[Option<&str>]) -> Vec<Option<String>> {
    items.iter().map(|o| o.map(|s| s.to_string())).collect()
}

#[test]
fn membership_example_both_families() {
    let cidrs = col(&[Some("10.0.0.0/8"), Some("2001:db8::/32")]);
    let addrs = col(&[Some("10.1.2.3"), Some("2001:db8::1"), Some("8.8.8.8"), None]);
    let out = pl_is_in(&addrs, &cidrs).unwrap();
    assert_eq!(out, vec![Some(true), Some(true), Some(false), None]);
}

#[test]
fn family_mismatch_never_matches() {
    let v6_only = col(&[Some("::/0")]);
    let out = pl_is_in(&col(&[Some("10.0.0.1")]), &v6_only).unwrap();
    assert_eq!(out, vec![Some(false)]);

    let v4_only = col(&[Some("0.0.0.0/0")]);
    let out = pl_is_in(&col(&[Some("2001:db8::1")]), &v4_only).unwrap();
    assert_eq!(out, vec![Some(false)]);
}

#[test]
fn zero_length_range_covers_its_family() {
    let cidrs = col(&[Some("0.0.0.0/0")]);
    let out = pl_is_in(&col(&[Some("8.8.8.8"), Some("0.0.0.0")]), &cidrs).unwrap();
    assert_eq!(out, vec![Some(true), Some(true)]);

    let cidrs6 = col(&[Some("::/0")]);
    let out = pl_is_in(&col(&[Some("::1"), Some("ffff::1")]), &cidrs6).unwrap();
    assert_eq!(out, vec![Some(true), Some(true)]);
}

#[test]
fn malformed_range_fails_whole_call() {
    let cidrs = col(&[Some("10.0.0.0/8"), Some("not-a-range")]);
    let err = pl_is_in(&col(&[Some("10.0.0.1")]), &cidrs).unwrap_err();
    assert_eq!(err, "Invalid CIDR range: not-a-range");

    let too_long = col(&[Some("10.0.0.0/33")]);
    let err = pl_is_in(&col(&[]), &too_long).unwrap_err();
    assert_eq!(err, "Invalid CIDR range: 10.0.0.0/33");

    let too_long6 = col(&[Some("::/129")]);
    assert!(pl_is_in(&col(&[]), &too_long6).is_err());

    let bare_addr = col(&[Some("10.0.0.0")]);
    assert!(pl_is_in(&col(&[]), &bare_addr).is_err());
}

#[test]
fn host_bits_are_masked_on_insert() {
    let cidrs = col(&[Some("10.1.2.3/8")]);
    let out = pl_is_in(&col(&[Some("10.255.0.1"), Some("11.0.0.1")]), &cidrs).unwrap();
    assert_eq!(out, vec![Some(true), Some(false)]);
}

#[test]
fn exact_host_ranges() {
    let cidrs = col(&[Some("8.8.8.8/32"), Some("2001:db8::1/128")]);
    let addrs = col(&[
        Some("8.8.8.8"),
        Some("8.8.8.9"),
        Some("2001:db8::1"),
        Some("2001:db8::2"),
    ]);
    let out = pl_is_in(&addrs, &cidrs).unwrap();
    assert_eq!(out, vec![Some(true), Some(false), Some(true), Some(false)]);
}

#[test]
fn null_ranges_are_skipped_and_bad_addresses_are_null() {
    let cidrs = col(&[None, Some("192.168.0.0/16")]);
    let addrs = col(&[Some("192.168.44.9"), Some("not-an-ip"), None]);
    let out = pl_is_in(&addrs, &cidrs).unwrap();
    assert_eq!(out, vec![Some(true), None, None]);
}

#[test]
fn empty_range_set_matches_nothing() {
    let out = pl_is_in(&col(&[Some("8.8.8.8"), Some("::1")]), &col(&[])).unwrap();
    assert_eq!(out, vec![Some(false), Some(false)]);
}

#[test]
fn longest_and_shortest_prefixes_agree() {
    // one narrow and one wide range; both cover, either way the answer is true
    let cidrs = col(&[Some("10.0.0.0/8"), Some("10.1.0.0/16")]);
    let out = pl_is_in(&col(&[Some("10.1.2.3"), Some("10.2.2.3")]), &cidrs).unwrap();
    assert_eq!(out, vec![Some(true), Some(true)]);
}

#[test]
fn range_literal_parsing() {
    assert_eq!(
        parse_cidr_bytes(b"10.0.0.0/8"),
        Some(CidrRange::V4(0x0A000000, 8))
    );
    assert_eq!(
        parse_cidr_bytes(b"2001:db8::/32"),
        Some(CidrRange::V6(0x2001_0db8_0000_0000_0000_0000_0000_0000, 32))
    );
    assert_eq!(parse_cidr_bytes(b"10.0.0.0/08"), Some(CidrRange::V4(0x0A000000, 8)));
    assert_eq!(parse_cidr_bytes(b"10.0.0.0"), None);
    assert_eq!(parse_cidr_bytes(b"10.0.0.0/8/9"), None);
    assert_eq!(parse_cidr_bytes(b"10.0.0.0/"), None);
    assert_eq!(parse_cidr_bytes(b"/8"), None);
}

#[test]
fn built_set_answers_queries_directly() {
    let set = CidrSet::build(&col(&[Some("172.16.0.0/12")])).unwrap();
    let out = ipenrich::iptools::cidr_query(&set, &col(&[Some("172.20.1.1"), Some("172.32.0.0")]));
    assert_eq!(out, vec![Some(true), Some(false)]);
}
