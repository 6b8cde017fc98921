use media_proto::codec::CodecType;
use media_proto::media_description::{get_ports, MediaDescription};
use media_proto::media_session::MediaSession;
use media_proto::net::IpAddress;
use media_proto::sdp::{DataTransferMode, MediaTransportProtocol, PayloadType, SdpPort};

#[test]
fn minimal_session() {
    let sdp = b"v=0\r\no=- 2890844526 2890842807 IN IP4 192.0.2.10\r\ns=SDP Seminar\r\nc=IN IP4 224.2.17.12/127\r\nt=2873397496 2873404696\r\nm=audio 49170 RTP/AVP 0\r\na=rtpmap:0 PCMU/8000\r\n";
    let s = MediaSession::parse(sdp).unwrap();
    assert_eq!(s.session_name(), "SDP Seminar");
    assert_eq!(s.protocol_version(), 0);
    assert_eq!(s.originator_of_session().user_name(), "-");
    let c = s.connection_address().as_ref().unwrap();
    assert_eq!(c.addresses(), &[IpAddress::V4([224, 2, 17, 12])]);
    assert_eq!(c.ttl(), Some(127));
    assert_eq!(s.timing().unwrap().start_time(), 2873397496 - 2208988800);
    let mds = s.media_descriptions();
    assert_eq!(mds.len(), 1);
    assert_eq!(*mds[0].payload_type(), PayloadType::Audio);
    assert_eq!(mds[0].ports(), &[SdpPort::new(49170, 49171)]);
    assert_eq!(*mds[0].transport_protocol(), MediaTransportProtocol::RtpAvp);
    assert_eq!(mds[0].codecs(), &[CodecType::Unsupported("PCMU".to_string())]);
    assert!(s.is_valid());
}

#[test]
fn session_with_lf_and_attributes() {
    let sdp = b"v=0\no=- 1 2 IN IP4 10.0.0.1\ns=x\na=sendonly\na=tool libx\na=rtcp-mux\nm=audio 5000 RTP/AVP 0 96\na=rtpmap:0 PCMU/8000\na=rtpmap:96 opus/48000/2\nm=video 5002 RTP/AVP 97\na=rtpmap:97 H264/90000\na=fmtp:97 packetization-mode=1; profile-level-id=42e01f; sprop-parameter-sets=Z0IAH5WoFAFuQA==,aM4G4g==\n";
    let mut s = MediaSession::parse(sdp).unwrap();
    assert_eq!(s.data_transfer_mode(), Some(DataTransferMode::Send));
    let attrs = s.media_attributes();
    assert_eq!(attrs.len(), 2);
    assert_eq!(attrs[0].name(), "tool");
    assert_eq!(attrs[0].value(), Some("libx"));
    assert_eq!(attrs[1].name(), "rtcp-mux");
    assert_eq!(attrs[1].value(), None);
    let mds = s.media_descriptions();
    assert_eq!(mds.len(), 2);
    assert_eq!(mds[0].codecs().len(), 2);
    assert_eq!(mds[1].codecs()[0].get_name(), "H264");
    s.set_data_transfer_mode(None);
    assert_eq!(s.data_transfer_mode(), None);
}

#[test]
fn invalid_sessions() {
    assert!(MediaSession::parse(b"invalid").is_err());
    assert!(MediaSession::parse(b"invalid sdp message").is_err());
    assert!(MediaSession::parse(b"v=0\r\ns=x\r\nm=audio 1 RTP/AVP 0\r\na=rtpmap:0 PCMU/8000").is_err());
    assert!(MediaSession::parse(b"v=0\r\no=- 1 2 IN IP4 10.0.0.1\r\nm=audio 1 RTP/AVP 0\r\na=rtpmap:0 PCMU/8000").is_err());
    assert!(MediaSession::parse(b"v=0\r\no=- 1 2 IN IP4 10.0.0.1\r\ns=x\r\n").is_err());
    assert!(MediaSession::parse(b"v=x\r\no=- 1 2 IN IP4 10.0.0.1\r\ns=x\r\nm=audio 1 RTP/AVP 0\r\na=rtpmap:0 PCMU/8000").is_err());
    assert!(matches!(
        MediaSession::parse(b"v=0\r\no=- 1 2 IN IP4 10.0.0.1\r\ns=\xff\r\nm=audio 1 RTP/AVP 0\r\na=rtpmap:0 PCMU/8000"),
        Err(media_proto::error::ParsingError::Utf8Error(_))
    ));
}

#[test]
fn media_description_codecs_per_format() {
    let md = MediaDescription::parse(
        b"video 51372 RTP/AVP 97 98\r\nc=IN IP4 192.168.1.1/1/2\r\na=rtpmap:97 H264/90000\r\na=fmtp:97 packetization-mode=1; profile-level-id=42e01f; sprop-parameter-sets=Z0IAH5WoFAFuQA==,aM4G4g==\r\na=rtpmap:98 H265/90000\r\na=fmtp:98 profile-id=1; sprop-vps=Z0IAH5WoFAFuQA==; sprop-sps=Z0IAH5WoFAFuQA==; sprop-pps=aM4G4g==\r\n",
    )
    .unwrap();
    assert_eq!(md.codecs().len(), 2);
    assert_eq!(md.codecs()[0].get_name(), "H264");
    assert_eq!(md.codecs()[1].get_name(), "H265");
    assert_eq!(md.connection_address().unwrap().addresses().len(), 2);
    assert_eq!(*md.port_count(), 1);
    assert!(MediaDescription::parse(b"video 51372 RTP/AVP 97 98\r\na=rtpmap:97 PCMU/8000\r\n").is_err());
    assert!(MediaDescription::parse(b"invalid sdp message").is_err());
}

#[test]
fn port_ranges() {
    let p = get_ports(b"49170/2").unwrap();
    assert_eq!(p, vec![SdpPort::new(49170, 49171), SdpPort::new(49172, 49173)]);
    assert_eq!(get_ports(b"49170").unwrap(), vec![SdpPort::new(49170, 49171)]);
    assert!(get_ports(b"65535").is_err());
    assert!(get_ports(b"65533/2").is_err());
    assert_eq!(get_ports(b"65532/2").unwrap().len(), 2);
}

#[test]
fn session_uri_line() {
    let good = b"v=0\r\no=- 1 2 IN IP4 10.0.0.1\r\ns=x\r\nu=http://www.example.com/seminars/sdp.pdf\r\ne=j.doe@example.com\r\nm=audio 1 RTP/AVP 0\r\na=rtpmap:0 PCMU/8000";
    let s = MediaSession::parse(good).unwrap();
    assert!(s.uri_of_description().is_some());
    assert_eq!(s.email_address().map(|e| e.as_str()), Some("j.doe@example.com"));
    assert_eq!(s.network_address(), IpAddress::V4([127, 0, 0, 1]));
    let bad = b"v=0\r\no=- 1 2 IN IP4 10.0.0.1\r\ns=x\r\nu=http://exa mple.com/\r\nm=audio 1 RTP/AVP 0\r\na=rtpmap:0 PCMU/8000";
    assert!(MediaSession::parse(bad).is_err());
}

#[test]
fn default_session_is_not_valid() {
    let s = MediaSession::default();
    assert!(!s.is_valid());
    assert_eq!(s.session_name(), "");
    assert!(s.originator_of_session().is_default());
}
