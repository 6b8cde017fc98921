use media_proto::net::{add_digit, parse_ip, AddressType, ConnectionAddresses, IpAddress, NetworkType};

#[test]
fn address_type_tests_test_default() {
    let default_address_type = AddressType::default();
    assert_eq!(default_address_type, AddressType::Ipv4);
}

#[test]
fn network_type_tests_test_default() {
    let default_network_type = NetworkType::default();
    assert_eq!(default_network_type, NetworkType::Internet);
}

#[test]
fn address_and_network_tokens() {
    assert_eq!(AddressType::from_str("IP4"), Some(AddressType::Ipv4));
    assert_eq!(AddressType::from_bytes(b"IP6"), Some(AddressType::Ipv6));
    assert_eq!(AddressType::from_bytes(b"INVALID"), None);
    assert_eq!(AddressType::Ipv6.as_str(), "IP6");
    assert_eq!(NetworkType::from_str("IN"), Some(NetworkType::Internet));
    assert_eq!(NetworkType::from_bytes(b"INVALID"), None);
    assert_eq!(NetworkType::Internet.as_str(), "IN");
}

#[test]
fn ip_text() {
    assert_eq!(parse_ip(b"192.0.2.10", AddressType::Ipv4).unwrap(), IpAddress::V4([192, 0, 2, 10]));
    assert!(parse_ip(b"192.0.2", AddressType::Ipv4).is_err());
    assert!(parse_ip(b"192.0.2.256", AddressType::Ipv4).is_err());
    assert!(parse_ip(b"192.0.2.01", AddressType::Ipv4).is_err());
    assert!(parse_ip(b"1.2.3.4.5", AddressType::Ipv4).is_err());
    assert_eq!(parse_ip(b"2001:db8::1", AddressType::Ipv6).unwrap(), IpAddress::V6([0x2001, 0xdb8, 0, 0, 0, 0, 0, 1]));
    assert_eq!(parse_ip(b"::", AddressType::Ipv6).unwrap(), IpAddress::V6([0; 8]));
    assert_eq!(parse_ip(b"1:2:3:4:5:6:7:8", AddressType::Ipv6).unwrap(), IpAddress::V6([1, 2, 3, 4, 5, 6, 7, 8]));
    assert!(parse_ip(b"1:2:3:4:5:6:7", AddressType::Ipv6).is_err());
    assert!(parse_ip(b"1::2::3", AddressType::Ipv6).is_err());
    assert!(parse_ip(b"12345::1", AddressType::Ipv6).is_err());
    assert!(parse_ip(b"192.0.2.10", AddressType::Ipv6).is_err());
}

#[test]
fn add_digit_bumps_lowest_component() {
    assert_eq!(add_digit(&IpAddress::V4([10, 0, 0, 254]), 1), Some(IpAddress::V4([10, 0, 0, 255])));
    assert_eq!(add_digit(&IpAddress::V4([10, 0, 0, 255]), 1), None);
    assert_eq!(add_digit(&IpAddress::V6([0, 0, 0, 0, 0, 0, 0, 0xffff]), 1), None);
}

#[test]
fn multicast_expansion() {
    let c = ConnectionAddresses::parse(b"IN IP4 192.168.1.1/1/2").unwrap();
    assert_eq!(c.addresses(), &[IpAddress::V4([192, 168, 1, 1]), IpAddress::V4([192, 168, 1, 2])]);
    assert_eq!(c.ttl(), Some(1));
    assert_eq!(*c.addr_type(), AddressType::Ipv4);
    assert_eq!(*c.net_type(), NetworkType::Internet);
}

#[test]
fn connection_variants() {
    let c = ConnectionAddresses::parse(b"IN IP4 192.168.1.1").unwrap();
    assert_eq!(c.addresses(), &[IpAddress::V4([192, 168, 1, 1])]);
    assert_eq!(c.ttl(), None);
    let c = ConnectionAddresses::parse(b"IN IP4 224.2.17.12/127").unwrap();
    assert_eq!(c.addresses(), &[IpAddress::V4([224, 2, 17, 12])]);
    assert_eq!(c.ttl(), Some(127));
    let c = ConnectionAddresses::parse(b"IN IP6 fd00::1/1/2").unwrap();
    assert_eq!(c.addresses(), &[IpAddress::V6([0xfd00, 0, 0, 0, 0, 0, 0, 1]), IpAddress::V6([0xfd00, 0, 0, 0, 0, 0, 0, 2])]);
    let c = ConnectionAddresses::parse(b"IN IP4 10.0.0.1/5/0").unwrap();
    assert_eq!(c.addresses().len(), 1);
    assert!(ConnectionAddresses::parse(b"invalid data").is_err());
    assert!(ConnectionAddresses::parse(b"IN IP4 10.0.0.254/1/3").is_err());
    assert!(ConnectionAddresses::parse(b"IN IP4 10.0.0.253/1/3").is_ok());
}

#[test]
fn ipv6_with_dotted_quad_tail() {
    assert_eq!(
        parse_ip(b"::ffff:192.0.2.1", AddressType::Ipv6).unwrap(),
        IpAddress::V6([0, 0, 0, 0, 0, 0xffff, 0xc000, 0x0201])
    );
    assert_eq!(
        parse_ip(b"1:2:3:4:5:6:1.2.3.4", AddressType::Ipv6).unwrap(),
        IpAddress::V6([1, 2, 3, 4, 5, 6, 0x0102, 0x0304])
    );
    assert_eq!(parse_ip(b"::1.2.3.4", AddressType::Ipv6).unwrap(), IpAddress::V6([0, 0, 0, 0, 0, 0, 0x0102, 0x0304]));
    assert!(parse_ip(b"1.2.3.4::", AddressType::Ipv6).is_err());
    assert!(parse_ip(b"::1.2.3.4:5", AddressType::Ipv6).is_err());
    assert!(parse_ip(b"1:2:3:4:5:6:7:1.2.3.4", AddressType::Ipv6).is_err());
}
