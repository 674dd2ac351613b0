use tunnel_bridge::addr::parse_host_port;

#[test]
fn addr_v4_basic() {
    assert_eq!(
        parse_host_port("127.0.0.1:5353"),
        Some(("127.0.0.1".to_string(), 5353))
    );
}

#[test]
fn addr_v4_port_zero() {
    assert_eq!(parse_host_port("0.0.0.0:0"), Some(("0.0.0.0".to_string(), 0)));
}

#[test]
fn addr_v4_octet_too_large() {
    assert_eq!(parse_host_port("256.0.0.1:53"), None);
}

#[test]
fn addr_v4_leading_zero_rejected() {
    assert_eq!(parse_host_port("01.2.3.4:53"), None);
}

#[test]
fn addr_v4_missing_port() {
    assert_eq!(parse_host_port("1.2.3.4"), None);
}

#[test]
fn addr_v4_three_octets_rejected() {
    assert_eq!(parse_host_port("1.2.3:53"), None);
}

#[test]
fn addr_v4_five_octets_rejected() {
    assert_eq!(parse_host_port("1.2.3.4.5:53"), None);
}

#[test]
fn addr_port_too_large() {
    assert_eq!(parse_host_port("1.2.3.4:70000"), None);
}

#[test]
fn addr_port_not_numeric() {
    assert_eq!(parse_host_port("1.2.3.4:http"), None);
}

#[test]
fn addr_hostname_rejected() {
    assert_eq!(parse_host_port("dns.example.com:443"), None);
}

#[test]
fn addr_v6_loopback() {
    assert_eq!(parse_host_port("[::1]:8080"), Some(("::1".to_string(), 8080)));
}

#[test]
fn addr_v6_unspecified() {
    assert_eq!(parse_host_port("[::]:53"), Some(("::".to_string(), 53)));
}

#[test]
fn addr_v6_full_eight_groups() {
    assert_eq!(
        parse_host_port("[2001:db8:0:0:0:0:0:1]:443"),
        Some(("2001:db8:0:0:0:0:0:1".to_string(), 443))
    );
}

#[test]
fn addr_v6_compressed() {
    assert_eq!(
        parse_host_port("[2606:4700:4700::1111]:443"),
        Some(("2606:4700:4700::1111".to_string(), 443))
    );
}

#[test]
fn addr_v6_seven_groups_rejected() {
    assert_eq!(parse_host_port("[1:2:3:4:5:6:7]:80"), None);
}

#[test]
fn addr_v6_nine_groups_rejected() {
    assert_eq!(parse_host_port("[1:2:3:4:5:6:7:8:9]:80"), None);
}

#[test]
fn addr_v6_double_compression_rejected() {
    assert_eq!(parse_host_port("[1::2::3]:80"), None);
}

#[test]
fn addr_v6_compression_with_eight_groups_rejected() {
    assert_eq!(parse_host_port("[1::2:3:4:5:6:7:8]:80"), None);
}

#[test]
fn addr_v6_group_too_long() {
    assert_eq!(parse_host_port("[12345::]:80"), None);
}

#[test]
fn addr_v6_single_leading_colon_rejected() {
    assert_eq!(parse_host_port("[:1:2:3:4:5:6:7]:80"), None);
}

#[test]
fn addr_v6_missing_bracket() {
    assert_eq!(parse_host_port("[::1:80"), None);
}

#[test]
fn addr_empty_rejected() {
    assert_eq!(parse_host_port(""), None);
}
