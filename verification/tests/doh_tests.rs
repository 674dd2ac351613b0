use tunnel_bridge::doh::{DohConfig, DohConfigError};

#[test]
fn doh_build_direct() {
    let c = DohConfig::build(
        "127.0.0.1:5353",
        "1.1.1.1:443",
        "dns.example",
        "/dns-query",
        true,
        false,
        "",
        "",
        "",
    )
    .unwrap();
    assert_eq!(c.listen_host, "127.0.0.1");
    assert_eq!(c.listen_port, 5353);
    assert_eq!(c.remote_host, "1.1.1.1");
    assert_eq!(c.remote_port, 443);
    assert_eq!(c.domain, "dns.example");
    assert_eq!(c.path, "/dns-query");
    assert!(c.use_post);
    assert!(c.fragment.is_none());
    assert_eq!(c.min_concurrency, 1);
    assert_eq!(c.max_concurrency, 10);
}

#[test]
fn doh_build_fragmented() {
    let c = DohConfig::build(
        "127.0.0.1:5353",
        "9.9.9.9:443",
        "dns.example",
        "/dns-query",
        false,
        true,
        "1-3",
        "10-30",
        "5-10",
    )
    .unwrap();
    assert!(!c.use_post);
    let p = c.fragment.unwrap();
    assert_eq!((p.packets_min, p.packets_max), (1, 3));
    assert_eq!((p.length_min, p.length_max), (10, 30));
    assert_eq!((p.interval_min, p.interval_max), (5, 10));
}

#[test]
fn doh_build_v6_endpoints() {
    let c = DohConfig::build(
        "[::1]:53",
        "[2606:4700:4700::1111]:443",
        "dns.example",
        "/q",
        true,
        false,
        "",
        "",
        "",
    )
    .unwrap();
    assert_eq!(c.listen_host, "::1");
    assert_eq!(c.listen_port, 53);
    assert_eq!(c.remote_host, "2606:4700:4700::1111");
    assert_eq!(c.remote_port, 443);
}

#[test]
fn doh_bad_listen_fails_first() {
    let r = DohConfig::build(
        "nonsense",
        "also nonsense",
        "d",
        "/p",
        true,
        false,
        "",
        "",
        "",
    );
    assert_eq!(r.unwrap_err(), DohConfigError::BadListenAddress);
}

#[test]
fn doh_bad_server_fails_without_running() {
    let r = DohConfig::build(
        "127.0.0.1:5353",
        "not an address",
        "d",
        "/p",
        true,
        false,
        "",
        "",
        "",
    );
    assert_eq!(r.unwrap_err(), DohConfigError::BadServerAddress);
}

#[test]
fn doh_bad_fragment_ranges_in_order() {
    let r = DohConfig::build(
        "127.0.0.1:5353",
        "1.1.1.1:443",
        "d",
        "/p",
        true,
        true,
        "x",
        "10-30",
        "5-10",
    );
    assert_eq!(r.unwrap_err(), DohConfigError::BadFragmentPackets);
    let r = DohConfig::build(
        "127.0.0.1:5353",
        "1.1.1.1:443",
        "d",
        "/p",
        true,
        true,
        "1-3",
        "30-10",
        "5-10",
    );
    assert_eq!(r.unwrap_err(), DohConfigError::BadFragmentLengths);
    let r = DohConfig::build(
        "127.0.0.1:5353",
        "1.1.1.1:443",
        "d",
        "/p",
        true,
        true,
        "1-3",
        "10-30",
        "",
    );
    assert_eq!(r.unwrap_err(), DohConfigError::BadFragmentIntervals);
}

#[test]
fn doh_fragment_strings_ignored_when_off() {
    let c = DohConfig::build(
        "127.0.0.1:5353",
        "1.1.1.1:443",
        "d",
        "/p",
        true,
        false,
        "garbage",
        "more garbage",
        "even more",
    )
    .unwrap();
    assert!(c.fragment.is_none());
}
