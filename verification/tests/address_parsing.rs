use ipenrich::ip::IpAddress;
use ipenrich::ip6::parse_ip;
use ipenrich::iptools::{pl_ipv4_to_numeric, pl_is_private, pl_is_valid, pl_numeric_to_ipv4};

fn col(items: &[Option<&str>]) -> Vec<Option<String>> {
    items.iter().map(|o| o.map(|s| s.to_string())).collect()
}

#[test]
fn parses_ipv4_text() {
    assert_eq!(parse_ip("8.8.8.8"), Some(IpAddress::V4(0x08080808)));
    assert_eq!(parse_ip("10.0.0.1"), Some(IpAddress::V4(0x0A000001)));
    assert_eq!(parse_ip("0.0.0.0"), Some(IpAddress::V4(0)));
    assert_eq!(parse_ip("255.255.255.255"), Some(IpAddress::V4(u32::MAX)));
}

#[test]
fn rejects_bad_ipv4_text() {
    assert_eq!(parse_ip(""), None);
    assert_eq!(parse_ip("256.1.1.1"), None);
    assert_eq!(parse_ip("01.2.3.4"), None);
    assert_eq!(parse_ip("1.2.3"), None);
    assert_eq!(parse_ip("1.2.3.4.5"), None);
    assert_eq!(parse_ip("1.2.3."), None);
    assert_eq!(parse_ip(".1.2.3"), None);
    assert_eq!(parse_ip("a.b.c.d"), None);
    assert_eq!(parse_ip("1.2.3.4 "), None);
    assert_eq!(parse_ip("not-an-ip"), None);
}

#[test]
fn parses_ipv6_text() {
    assert_eq!(parse_ip("::"), Some(IpAddress::V6(0)));
    assert_eq!(parse_ip("::1"), Some(IpAddress::V6(1)));
    assert_eq!(
        parse_ip("2001:db8::1"),
        Some(IpAddress::V6(0x2001_0db8_0000_0000_0000_0000_0000_0001))
    );
    assert_eq!(
        parse_ip("1:2:3:4:5:6:7:8"),
        Some(IpAddress::V6(0x0001_0002_0003_0004_0005_0006_0007_0008))
    );
    assert_eq!(
        parse_ip("fe80::"),
        Some(IpAddress::V6(0xfe80_0000_0000_0000_0000_0000_0000_0000))
    );
    assert_eq!(
        parse_ip("::ffff:192.168.1.1"),
        Some(IpAddress::V6(0x0000_0000_0000_0000_0000_ffff_c0a8_0101))
    );
    assert_eq!(
        parse_ip("64:ff9b::1.2.3.4"),
        Some(IpAddress::V6(0x0064_ff9b_0000_0000_0000_0000_0102_0304))
    );
    assert_eq!(
        parse_ip("2001:DB8::A"),
        Some(IpAddress::V6(0x2001_0db8_0000_0000_0000_0000_0000_000a))
    );
    assert_eq!(
        parse_ip("1:2:3:4:5:6:7::"),
        Some(IpAddress::V6(0x0001_0002_0003_0004_0005_0006_0007_0000))
    );
}

#[test]
fn rejects_bad_ipv6_text() {
    assert_eq!(parse_ip(":"), None);
    assert_eq!(parse_ip(":::"), None);
    assert_eq!(parse_ip("1::2::3"), None);
    assert_eq!(parse_ip("1:2:3:4:5:6:7:8:9"), None);
    assert_eq!(parse_ip("1:2:3:4:5:6:7"), None);
    assert_eq!(parse_ip("12345::"), None);
    assert_eq!(parse_ip("1:2:3:4:5:6:7::8"), None);
    assert_eq!(parse_ip(":1:2:3:4:5:6:7"), None);
    assert_eq!(parse_ip("1:2:3:4:5:6:7:"), None);
    assert_eq!(parse_ip("fe80::1%eth0"), None);
    assert_eq!(parse_ip("::ffff:1.2.3.256"), None);
    assert_eq!(parse_ip("1.2.3.4::"), None);
    assert_eq!(parse_ip("g::1"), None);
}

#[test]
fn validity_column_propagates_nulls() {
    let rows = col(&[Some("8.8.8.8"), Some("::1"), None, Some("nope")]);
    let out = pl_is_valid(&rows);
    assert_eq!(out, vec![Some(true), Some(true), None, Some(false)]);
}

#[test]
fn private_column_follows_rfc1918() {
    let rows = col(&[
        Some("10.1.2.3"),
        Some("172.16.0.1"),
        Some("172.31.255.255"),
        Some("192.168.5.5"),
        Some("172.15.0.1"),
        Some("172.32.0.1"),
        Some("11.0.0.0"),
        Some("8.8.8.8"),
        Some("2001:db8::1"),
        Some("junk"),
        None,
    ]);
    let out = pl_is_private(&rows);
    assert_eq!(
        out,
        vec![
            Some(true),
            Some(true),
            Some(true),
            Some(true),
            Some(false),
            Some(false),
            Some(false),
            Some(false),
            Some(false),
            Some(false),
            None,
        ]
    );
}

#[test]
fn ipv4_numeric_round_trip() {
    let rows = col(&[Some("8.8.8.8"), Some("192.168.1.1"), None, Some("::1"), Some("x")]);
    let nums = pl_ipv4_to_numeric(&rows);
    assert_eq!(nums, vec![Some(0x08080808), Some(0xC0A80101), None, None, None]);

    let back = pl_numeric_to_ipv4(&nums);
    assert_eq!(
        back,
        vec![
            Some("8.8.8.8".to_string()),
            Some("192.168.1.1".to_string()),
            None,
            None,
            None,
        ]
    );

    // encode(decode(n)) == n for arbitrary 32-bit values
    let vals = vec![Some(0u32), Some(1), Some(u32::MAX), Some(0x01020304), Some(999999999)];
    let texts = pl_numeric_to_ipv4(&vals);
    let again = pl_ipv4_to_numeric(&texts);
    assert_eq!(again, vals);
    assert_eq!(texts[2], Some("255.255.255.255".to_string()));
    assert_eq!(texts[3], Some("1.2.3.4".to_string()));
}
