use geoip_resolver::resolve::get_ip;

#[test]
fn real_ip_header_is_taken() {
    assert_eq!(get_ip(Some("1.2.3.4"), None), "1.2.3.4");
}

#[test]
fn first_forwarded_entry_is_taken() {
    assert_eq!(get_ip(None, Some("5.6.7.8, 9.9.9.9")), "5.6.7.8");
}

#[test]
fn unknown_without_headers() {
    assert_eq!(get_ip(None, None), "Unknown");
}

#[test]
fn real_ip_header_wins_over_forwarded() {
    assert_eq!(get_ip(Some("1.2.3.4"), Some("5.6.7.8, 9.9.9.9")), "1.2.3.4");
}

#[test]
fn forwarded_list_is_cut_at_the_first_comma_only() {
    assert_eq!(get_ip(None, Some("5.6.7.8")), "5.6.7.8");
    assert_eq!(get_ip(None, Some("")), "");
    assert_eq!(get_ip(None, Some(",9.9.9.9")), "");
    assert_eq!(get_ip(None, Some(" 5.6.7.8 , 9.9.9.9")), " 5.6.7.8 ");
    assert_eq!(get_ip(None, Some("a,b,c")), "a");
    assert_eq!(get_ip(None, Some("caf\u{e9},x")), "caf\u{e9}");
}

#[test]
fn real_ip_header_is_not_validated() {
    assert_eq!(get_ip(Some("not-an-ip, x"), None), "not-an-ip, x");
    assert_eq!(get_ip(Some(""), Some("5.6.7.8")), "");
}
