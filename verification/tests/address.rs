use portway::address::{
    advertised_lan_ip, local_url, needs_detection, url_for_ip, HostAddress, IpAddress,
};

fn host(ip: IpAddress, text: &str) -> HostAddress {
    HostAddress {
        ip,
        text: text.to_owned(),
    }
}

#[test]
fn does_not_advertise_loopback_as_lan_reachable() {
    assert_eq!(
        advertised_lan_ip(IpAddress::from_octets(127, 0, 0, 1), None),
        None
    );
    assert_eq!(
        advertised_lan_ip(IpAddress::from_octets(192, 0, 2, 15), None),
        Some(IpAddress::from_octets(192, 0, 2, 15))
    );
}

#[test]
fn formats_ipv6_urls_with_brackets() {
    let address = host(
        IpAddress::V6(0x2001_0db8_0000_0000_0000_0000_0000_0001),
        "2001:db8::1",
    );
    assert_eq!(
        url_for_ip("https", &address, 2721),
        "https://[2001:db8::1]:2721"
    );
}

#[test]
fn ipv4_urls_have_no_brackets() {
    let address = host(IpAddress::from_octets(192, 0, 2, 15), "192.0.2.15");
    assert_eq!(url_for_ip("http", &address, 80), "http://192.0.2.15:80");
    assert_eq!(local_url("http", &address, 80), "http://192.0.2.15:80");
}

#[test]
fn local_urls_use_localhost() {
    let any = host(IpAddress::V4(0), "0.0.0.0");
    assert_eq!(local_url("http", &any, 2721), "http://localhost:2721");
    let loopback = host(IpAddress::V6(1), "::1");
    assert_eq!(local_url("https", &loopback, 2721), "https://localhost:2721");
}

#[test]
fn detection_fills_in_for_every_address() {
    let any = IpAddress::V4(0);
    let lan = IpAddress::from_octets(192, 168, 1, 7);
    assert!(needs_detection(any));
    assert!(!needs_detection(lan));
    assert_eq!(advertised_lan_ip(any, Some(lan)), Some(lan));
    assert_eq!(advertised_lan_ip(any, None), None);
    assert_eq!(
        advertised_lan_ip(any, Some(IpAddress::from_octets(127, 0, 0, 1))),
        None
    );
    assert_eq!(advertised_lan_ip(any, Some(any)), None);
    assert_eq!(advertised_lan_ip(IpAddress::V6(0), Some(lan)), Some(lan));
}

#[test]
fn loopback_is_a_whole_network() {
    assert!(IpAddress::from_octets(127, 255, 255, 255).is_loopback());
    assert!(!IpAddress::from_octets(128, 0, 0, 0).is_loopback());
    assert!(!IpAddress::from_octets(126, 255, 255, 255).is_loopback());
    assert!(IpAddress::V6(1).is_loopback());
    assert!(!IpAddress::V6(0).is_loopback());
    assert!(IpAddress::V6(0).is_unspecified());
}
