use udp_polygon::config::{parse_ipv4, parse_port, Address, Config, FromDefault, IpAddr};

#[test]
fn parse_port_reads_decimal() {
    assert_eq!(parse_port(b"5060"), Some(5060));
    assert_eq!(parse_port(b"5061"), Some(5061));
    assert_eq!(parse_port(b"0"), Some(0));
    assert_eq!(parse_port(b"00080"), Some(80));
    assert_eq!(parse_port(b"65535"), Some(65535));
}

#[test]
fn parse_port_rejects_bad_text() {
    assert_eq!(parse_port(b""), None);
    assert_eq!(parse_port(b"65536"), None);
    assert_eq!(parse_port(b"99999999999999999999"), None);
    assert_eq!(parse_port(b"12a"), None);
    assert_eq!(parse_port(b"-1"), None);
    assert_eq!(parse_port(b" 80"), None);
}

#[test]
fn parse_ipv4_reads_dotted_quads() {
    assert_eq!(parse_ipv4(b"192.168.1.0"), Some(IpAddr::V4(192, 168, 1, 0)));
    assert_eq!(parse_ipv4(b"127.0.0.1"), Some(IpAddr::V4(127, 0, 0, 1)));
    assert_eq!(parse_ipv4(b"0.0.0.0"), Some(IpAddr::V4(0, 0, 0, 0)));
    assert_eq!(parse_ipv4(b"255.255.255.255"), Some(IpAddr::V4(255, 255, 255, 255)));
}

#[test]
fn parse_ipv4_rejects_bad_text() {
    assert_eq!(parse_ipv4(b""), None);
    assert_eq!(parse_ipv4(b"1.2.3"), None);
    assert_eq!(parse_ipv4(b"1.2.3.4.5"), None);
    assert_eq!(parse_ipv4(b"256.0.0.1"), None);
    assert_eq!(parse_ipv4(b"01.2.3.4"), None);
    assert_eq!(parse_ipv4(b"1..2.3"), None);
    assert_eq!(parse_ipv4(b"a.b.c.d"), None);
    assert_eq!(parse_ipv4(b"1.2.3."), None);
    assert_eq!(parse_ipv4(b".1.2.3"), None);
    assert_eq!(parse_ipv4(b"1234.0.0.1"), None);
}

#[test]
fn default_config() {
    let config = Config::default();
    assert_eq!(config.bind_addresses.len(), 1);
    assert_eq!(config.destination_address.is_some(), true);
}

#[test]
fn default_config_addresses() {
    let config = Config::from_default();
    assert_eq!(
        config.bind_addresses[0],
        Address { ip: IpAddr::V4(0, 0, 0, 0), port: 5060 }
    );
    assert_eq!(
        config.destination_address,
        Some(Address { ip: IpAddr::V4(127, 0, 0, 1), port: 5061 })
    );
}
