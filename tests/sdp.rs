use media_proto::error::ParsingError;
use media_proto::net::{AddressType, IpAddress, NetworkType};
use media_proto::sdp::{
    Bandwidth, DataTransferMode, MediaTransportProtocol, Origin, PayloadType, SdpPort, UnknownMediaAttribute,
};
use media_proto::timing::{parse_duration, RepeatTimes, Timing};

#[test]
fn test_impl() {
    let rtp_port = 49170;
    let rtcp_port = 49171;
    let sdp_port = SdpPort::new(rtp_port, rtcp_port);
    assert_eq!(sdp_port.rtp_port(), rtp_port);
    assert_eq!(sdp_port.rtcp_port(), rtcp_port);
}

#[test]
fn test_parse_repeat_times() {
    let input = "7d 1h 0 25h";
    let repeat_times = RepeatTimes::parse(input.as_bytes()).expect("Failed to parse repeat times");

    assert_eq!(repeat_times.repeat_interval(), 7 * 86400);
    assert_eq!(repeat_times.active_duration(), 3600);
    assert_eq!(repeat_times.offsets(), [0, 25 * 3600]);
}

#[test]
fn test_parse_invalid_repeat_times() {
    let input = "7d 1h";
    assert!(RepeatTimes::parse(input.as_bytes()).is_err());

    let input = "7d 1x 0 25h";
    assert!(RepeatTimes::parse(input.as_bytes()).is_err());
}

#[test]
fn repeat_time_units() {
    let r = RepeatTimes::parse(b"1h 30m 0 15m").unwrap();
    assert_eq!((r.repeat_interval(), r.active_duration(), r.offset1(), r.offset2()), (3600, 1800, 0, 900));
    let r = RepeatTimes::parse(b"604800 3600 0 90000").unwrap();
    assert_eq!(r.offset2(), 90000);
    assert!(RepeatTimes::parse(b"1w 1d 0 1x").is_err());
    assert_eq!(parse_duration(b"2d").unwrap(), 172800);
    assert!(parse_duration(b"").is_err());
    assert!(parse_duration(b"9223372036854775807d").is_err());
}

#[test]
fn bandwidth_parse() {
    let b = Bandwidth::parse(b"AS:128").unwrap();
    assert_eq!(b.index(), "AS");
    assert_eq!(b.element(), 128);
    assert_eq!(Bandwidth::parse(b"CT:256").unwrap(), Bandwidth::new("CT".to_string(), 256));
    assert!(Bandwidth::parse(b"invalid").is_err());
    assert!(Bandwidth::parse(b"AS:invalid").is_err());
}

#[test]
fn direction_tokens() {
    assert_eq!(DataTransferMode::from_bit(0b10), Some(DataTransferMode::Send));
    assert_eq!(DataTransferMode::from_bits(0b100), None);
    assert_eq!(DataTransferMode::SendReceive.as_u8(), 0b11);
    assert_eq!(DataTransferMode::Receive.bits(), 0b01);
    assert_eq!(DataTransferMode::from_bytes(b"recvonly"), Some(DataTransferMode::Receive));
    assert_eq!(DataTransferMode::from_bytes(b"inactive"), Some(DataTransferMode::Inactive));
    assert_eq!(DataTransferMode::from_bytes(b"sendonlyx"), None);
}

#[test]
fn payload_types() {
    assert_eq!(PayloadType::from_str("video").unwrap(), PayloadType::Video);
    assert_eq!(PayloadType::from_bytes(b"control").unwrap(), PayloadType::Control);
    assert!(matches!(PayloadType::from_bytes(b"invalid"), Err(ParsingError::InvalidData(_))));
    assert_eq!(PayloadType::Application.as_str(), "application");
    assert_eq!(PayloadType::Data.as_str(), "data");
}

#[test]
fn transport_protocols() {
    assert_eq!(MediaTransportProtocol::from_bytes(b"RTP/AVP").unwrap(), MediaTransportProtocol::RtpAvp);
    assert_eq!(MediaTransportProtocol::from_bytes(b"RTP/SAVP").unwrap(), MediaTransportProtocol::RtpSavp);
    assert_eq!(
        MediaTransportProtocol::from_bytes(b"UNKNOWN/PROTOCOL").unwrap(),
        MediaTransportProtocol::Unknown("UNKNOWN/PROTOCOL".to_string())
    );
    assert!(matches!(MediaTransportProtocol::from_bytes(&[0, 159, 146, 150]), Err(ParsingError::Utf8Error(_))));
}

#[test]
fn attributes() {
    let a = UnknownMediaAttribute::new("rtcp-mux".to_string(), None);
    assert_eq!(a.name(), "rtcp-mux");
    assert_eq!(a.value(), None);
}

#[test]
fn origin_parse() {
    let o = Origin::parse(b"jdoe 2890844526 2890842807 IN IP4 192.0.2.10").unwrap();
    assert_eq!(
        o,
        Origin::new(
            "jdoe".to_string(),
            "2890842807".to_string(),
            "2890844526".to_string(),
            AddressType::Ipv4,
            IpAddress::V4([192, 0, 2, 10]),
        )
    );
    let o = Origin::parse(b"jdoe 2890844526 2890842807 IN IP6 2001:db8::1").unwrap();
    assert_eq!(o.network_address(), IpAddress::V6([0x2001, 0xdb8, 0, 0, 0, 0, 0, 1]));
    assert!(Origin::parse(b"invalid").is_err());
    assert!(Origin::parse(b"jdoe 1 2 IN IP6 192.0.2.10").is_err());
    assert!(Origin::default().is_default());
    assert!(!o.is_default());
}

#[test]
fn test_origin_methods() {
    let origin = Origin::new(
        "jdoe".to_string(),
        "2890844526".to_string(),
        "2890842807".to_string(),
        AddressType::Ipv4,
        IpAddress::V4([192, 0, 2, 10]),
    );

    assert_eq!(origin.user_name(), "jdoe");
    assert_eq!(origin.session_version(), "2890844526");
    assert_eq!(origin.session_id(), "2890842807");
    assert_eq!(*origin.network_type(), NetworkType::Internet);
    assert_eq!(*origin.address_type(), AddressType::Ipv4);
    assert_eq!(origin.network_address(), IpAddress::V4([192, 0, 2, 10]));
}

#[test]
fn timing_parse() {
    let t = Timing::parse(b"3735928559 3735928560").unwrap();
    assert_eq!(t.start_time(), 3735928559 - 2208988800);
    assert_eq!(t.stop_time(), Some(3735928560 - 2208988800));
    assert_eq!(t.get_duration(), Some(1));
    let t = Timing::parse(b"3735928559 0").unwrap();
    assert_eq!(t.stop_time(), None);
    assert_eq!(t.get_duration(), None);
    let t = Timing::parse(b"3735928559").unwrap();
    assert_eq!(t, Timing::new(3735928559 - 2208988800, None));
    assert!(Timing::parse(b"invalid").is_err());
    assert!(Timing::parse(b"3735928559 invalid").is_err());
    assert!(Timing::parse(b"3735928560 3735928559").is_err());
    assert!(Timing::parse(b"-9223372036854775807").is_err());
    assert!(Timing::parse(b"9223372036854775807").is_err());
}
