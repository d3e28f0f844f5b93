use geoip_resolver::address::{parse_ip, IpAddress};

fn v6(g: [u16; 8]) -> Option<IpAddress> {
    Some(IpAddress::V6(g[0], g[1], g[2], g[3], g[4], g[5], g[6], g[7]))
}

#[test]
fn dotted_quads_parse() {
    assert_eq!(parse_ip("8.8.8.8"), Some(IpAddress::V4(8, 8, 8, 8)));
    assert_eq!(parse_ip("0.0.0.0"), Some(IpAddress::V4(0, 0, 0, 0)));
    assert_eq!(parse_ip("255.255.255.255"), Some(IpAddress::V4(255, 255, 255, 255)));
    assert_eq!(parse_ip("192.168.1.10"), Some(IpAddress::V4(192, 168, 1, 10)));
    assert_eq!(parse_ip("1.20.199.200"), Some(IpAddress::V4(1, 20, 199, 200)));
}

#[test]
fn named_invalid_identifiers_are_rejected() {
    assert_eq!(parse_ip("not-an-ip"), None);
    assert_eq!(parse_ip("999.999.1.1"), None);
    assert_eq!(parse_ip(""), None);
    assert_eq!(parse_ip("bad-ip"), None);
    assert_eq!(parse_ip("Unknown"), None);
}

#[test]
fn malformed_dotted_quads_are_rejected() {
    for s in [
        "1.2.3", "1.2.3.4.5", "1.2.3.", ".1.2.3", "1..2.3", "256.1.1.1", "1.1.1.256",
        "01.2.3.4", "1.2.3.04", "00.0.0.0", "1.2.3.4 ", " 1.2.3.4", "1.2.3.a", "1,2,3,4",
        "1.2.3.1000", "0001.2.3.4", "+1.2.3.4", "-1.2.3.4", "1.2.3.4/32", "1.2.3.4:80",
        "\u{0661}.2.3.4", "1.2.3.4\n", ".", "...", "1", "300",
    ] {
        assert_eq!(parse_ip(s), None, "{:?}", s);
    }
}

#[test]
fn full_ipv6_texts_parse() {
    assert_eq!(parse_ip("1:2:3:4:5:6:7:8"), v6([1, 2, 3, 4, 5, 6, 7, 8]));
    assert_eq!(
        parse_ip("2001:0db8:85a3:0000:0000:8a2e:0370:7334"),
        v6([0x2001, 0x0db8, 0x85a3, 0, 0, 0x8a2e, 0x0370, 0x7334])
    );
    assert_eq!(
        parse_ip("FFFF:ffff:FfFf:ffff:ffff:ffff:ffff:ffff"),
        v6([0xffff; 8])
    );
    assert_eq!(parse_ip("0:0:0:0:0:0:0:0"), v6([0; 8]));
    assert_eq!(parse_ip("00:000:0000:0:a:B:0c:00D"), v6([0, 0, 0, 0, 10, 11, 12, 13]));
}

#[test]
fn compressed_ipv6_texts_parse() {
    assert_eq!(parse_ip("::"), v6([0; 8]));
    assert_eq!(parse_ip("::1"), v6([0, 0, 0, 0, 0, 0, 0, 1]));
    assert_eq!(parse_ip("1::"), v6([1, 0, 0, 0, 0, 0, 0, 0]));
    assert_eq!(parse_ip("2001:db8::1"), v6([0x2001, 0xdb8, 0, 0, 0, 0, 0, 1]));
    assert_eq!(parse_ip("2001:4860:4860::8888"), v6([0x2001, 0x4860, 0x4860, 0, 0, 0, 0, 0x8888]));
    assert_eq!(parse_ip("1:2:3:4:5:6:7::"), v6([1, 2, 3, 4, 5, 6, 7, 0]));
    assert_eq!(parse_ip("::2:3:4:5:6:7:8"), v6([0, 2, 3, 4, 5, 6, 7, 8]));
    assert_eq!(parse_ip("1:2:3::6:7:8"), v6([1, 2, 3, 0, 0, 6, 7, 8]));
    assert_eq!(parse_ip("1::8"), v6([1, 0, 0, 0, 0, 0, 0, 8]));
    assert_eq!(parse_ip("1:2:3:4::6:7:8"), v6([1, 2, 3, 4, 0, 6, 7, 8]));
}

#[test]
fn ipv6_texts_with_a_dotted_quad_parse() {
    assert_eq!(parse_ip("::ffff:1.2.3.4"), v6([0, 0, 0, 0, 0, 0xffff, 0x0102, 0x0304]));
    assert_eq!(parse_ip("::1.2.3.4"), v6([0, 0, 0, 0, 0, 0, 0x0102, 0x0304]));
    assert_eq!(parse_ip("1:2:3:4:5:6:1.2.3.4"), v6([1, 2, 3, 4, 5, 6, 0x0102, 0x0304]));
    assert_eq!(parse_ip("1:2:3:4:5::1.2.3.4"), v6([1, 2, 3, 4, 5, 0, 0x0102, 0x0304]));
    assert_eq!(parse_ip("64:ff9b::192.0.2.33"), v6([0x64, 0xff9b, 0, 0, 0, 0, 0xc000, 0x0221]));
    assert_eq!(parse_ip("1::255.255.255.255"), v6([1, 0, 0, 0, 0, 0, 0xffff, 0xffff]));
}

#[test]
fn malformed_ipv6_texts_are_rejected() {
    for s in [
        ":", ":::", "1", "1:", ":1", "1:2", "1:2:3:4:5:6:7", "1:2:3:4:5:6:7:8:9",
        "1:2:3:4:5:6:7:8::", "::1:2:3:4:5:6:7:8", "0::1:2:3:4:5:6:7", "1::2::3", "1:::2",
        ":1::", "1::2:", "::1:", ":1:2:3:4:5:6:7:8", "1:2:3:4:5:6:7:8:", "12345::", "::12345",
        "g::", "::g", "1:2:3:4:5:6:7:g", "1.2.3.4::", "1.2.3.4:1:2:3:4:5:6",
        "1:2:3:4:5:6:7:1.2.3.4", "1:2:3:4:5:1.2.3.4", "1:2:3:4:5:6::1.2.3.4", "::1.2.3.4:5",
        "::1.2.3", "::1.2.3.256", "::01.2.3.4", "::1.2.3.4.5", "1:2:3:4:5:6:1.2.3.4:",
        "fe80::1%eth0", "[::1]", "::1 ", " ::1", "::ffff:1.2.3.4567", "1:2:3:4:5:6:7:8\n",
        "::\u{ff11}",
    ] {
        assert_eq!(parse_ip(s), None, "{:?}", s);
    }
}

#[test]
fn long_identifiers_are_rejected() {
    let many_groups = "1:".repeat(5000);
    assert_eq!(parse_ip(&many_groups), None);
    let many_digits = "1".repeat(5000);
    assert_eq!(parse_ip(&many_digits), None);
    let many_dots = "1.".repeat(5000);
    assert_eq!(parse_ip(&many_dots), None);
}
